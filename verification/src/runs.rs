//! What a run leaves behind: one result per unit and one summary per run,
//! and the history of summaries, which is kept as text with one record on
//! each line.

use vstd::prelude::*;
use crate::config::{agentsync_dir_names, home_missing_message, logs_dir, LocalPath};
use crate::text::{
    blank, concat2, is_blank, lemma_split_concat, lemma_split_one_piece, split, split_at_char,
    texts,
};

verus! {

/// The outcome of one unit of a run. It is produced once, when the unit has
/// been attempted, and not changed afterwards.
#[derive(Debug)]
pub struct SyncItemResult {
    pub label: String,
    pub ok: bool,
    pub message: String,
}

/// What a [`SyncItemResult`] holds.
pub struct SyncItemResultView {
    pub label: Seq<char>,
    pub ok: bool,
    pub message: Seq<char>,
}

impl View for SyncItemResult {
    type V = SyncItemResultView;

    open spec fn view(&self) -> SyncItemResultView {
        SyncItemResultView { label: self.label@, ok: self.ok, message: self.message@ }
    }
}

impl Clone for SyncItemResult {
    fn clone(&self) -> (r: Self)
        ensures
            r@ == self@,
    {
        SyncItemResult { label: self.label.clone(), ok: self.ok, message: self.message.clone() }
    }
}

/// What a sequence of results holds.
pub open spec fn item_views(items: Seq<SyncItemResult>) -> Seq<SyncItemResultView> {
    Seq::new(items.len(), |i: int| items[i]@)
}

/// Whether every result of `items` is a success. This holds of no results at all.
pub open spec fn all_ok(items: Seq<SyncItemResultView>) -> bool {
    forall|i: int| 0 <= i < items.len() ==> (#[trigger] items[i]).ok
}

/// A copy of each result of `v`, in order.
pub fn clone_items(v: &Vec<SyncItemResult>) -> (r: Vec<SyncItemResult>)
    ensures
        item_views(r@) == item_views(v@),
{
    let mut r: Vec<SyncItemResult> = Vec::new();
    let mut i: usize = 0;
    while i < v.len()
        invariant
            i <= v.len(),
            r@.len() == i,
            forall|j: int| 0 <= j < i ==> r@[j]@ == v@[j]@,
        decreases v.len() - i,
    {
        r.push(v[i].clone());
        i += 1;
    }
    assert(item_views(r@) =~= item_views(v@));
    r
}

/// Whether every result of `items` is a success.
pub fn every_item_ok(items: &Vec<SyncItemResult>) -> (r: bool)
    ensures
        r == all_ok(item_views(items@)),
{
    let mut i: usize = 0;
    while i < items.len()
        invariant
            i <= items.len(),
            forall|j: int| 0 <= j < i ==> (#[trigger] item_views(items@)[j]).ok,
        decreases items.len() - i,
    {
        if !items[i].ok {
            assert(!item_views(items@)[i as int].ok);
            return false;
        }
        i += 1;
    }
    true
}

/// The record of one completed run. It is created once, when the run ends,
/// and not changed afterwards.
#[derive(Debug)]
pub struct SyncRunSummary {
    pub run_id: String,
    pub started_at_ms: u64,
    pub ended_at_ms: u64,
    pub ok: bool,
    pub backup_root: String,
    pub log_path: String,
    pub items: Vec<SyncItemResult>,
}

/// What a [`SyncRunSummary`] holds.
pub struct SyncRunSummaryView {
    pub run_id: Seq<char>,
    pub started_at_ms: u64,
    pub ended_at_ms: u64,
    pub ok: bool,
    pub backup_root: Seq<char>,
    pub log_path: Seq<char>,
    pub items: Seq<SyncItemResultView>,
}

impl View for SyncRunSummary {
    type V = SyncRunSummaryView;

    open spec fn view(&self) -> SyncRunSummaryView {
        SyncRunSummaryView {
            run_id: self.run_id@,
            started_at_ms: self.started_at_ms,
            ended_at_ms: self.ended_at_ms,
            ok: self.ok,
            backup_root: self.backup_root@,
            log_path: self.log_path@,
            items: item_views(self.items@),
        }
    }
}

impl Clone for SyncRunSummary {
    fn clone(&self) -> (r: Self)
        ensures
            r@ == self@,
    {
        SyncRunSummary {
            run_id: self.run_id.clone(),
            started_at_ms: self.started_at_ms,
            ended_at_ms: self.ended_at_ms,
            ok: self.ok,
            backup_root: self.backup_root.clone(),
            log_path: self.log_path.clone(),
            items: clone_items(&self.items),
        }
    }
}

/// What an optional summary holds, if there is one.
pub open spec fn opt_summary_view(o: Option<SyncRunSummary>) -> Option<SyncRunSummaryView> {
    match o {
        Some(s) => Some(s@),
        None => None,
    }
}

/// What a sequence of summaries holds.
pub open spec fn summary_views(v: Seq<SyncRunSummary>) -> Seq<SyncRunSummaryView> {
    Seq::new(v.len(), |i: int| v[i]@)
}

/// What a sequence of optional summaries holds.
pub open spec fn opt_summary_views(v: Seq<Option<SyncRunSummary>>) -> Seq<
    Option<SyncRunSummaryView>,
> {
    Seq::new(v.len(), |i: int| opt_summary_view(v[i]))
}

/// The lines of `lines` that are not blank, in their order.
pub open spec fn non_blank(lines: Seq<Seq<char>>) -> Seq<Seq<char>>
    decreases lines.len(),
{
    if lines.len() == 0 {
        Seq::empty()
    } else if is_blank(lines.last()) {
        non_blank(lines.drop_last())
    } else {
        non_blank(lines.drop_last()).push(lines.last())
    }
}

/// The lines of the history that may hold a record: the text is cut at
/// every line feed, and blank lines are left out.
pub open spec fn record_lines(text: Seq<char>) -> Seq<Seq<char>> {
    non_blank(split(text, '\n'))
}

/// Cuts the text of the history into the lines that may hold a record.
pub fn history_lines(text: &str) -> (r: Vec<String>)
    ensures
        texts(r@) == record_lines(text@),
{
    let lines = split_at_char(text, '\n');
    let ghost all = texts(lines@);
    let mut r: Vec<String> = Vec::new();
    let mut i: usize = 0;
    assert(texts(r@) =~= non_blank(all.take(0)));
    while i < lines.len()
        invariant
            i <= lines.len(),
            all == texts(lines@),
            texts(r@) == non_blank(all.take(i as int)),
        decreases lines.len() - i,
    {
        proof {
            assert(all.take(i + 1).drop_last() =~= all.take(i as int));
            assert(all.take(i + 1).last() == lines@[i as int]@);
        }
        if !blank(lines[i].as_str()) {
            let ghost before = texts(r@);
            r.push(lines[i].clone());
            assert(texts(r@) =~= before.push(lines@[i as int]@));
        }
        i += 1;
    }
    assert(all.take(lines@.len() as int) =~= all);
    r
}

/// The text that one record adds to the history: the record on a line of
/// its own.
pub open spec fn appended_entry(record: Seq<char>) -> Seq<char> {
    record.push('\n')
}

/// Frames one record for the history: what is appended to the file.
pub fn history_entry(record: &str) -> (r: String)
    ensures
        r@ == appended_entry(record@),
{
    let r = concat2(record, "\n");
    proof {
        reveal_strlit("\n");
        assert("\n"@ =~= seq!['\n']);
        assert(r@ =~= record@.push('\n'));
    }
    r
}

/// The lines that are not blank, of two sequences one after the other.
proof fn lemma_non_blank_concat(x: Seq<Seq<char>>, y: Seq<Seq<char>>)
    ensures
        non_blank(x + y) == non_blank(x) + non_blank(y),
    decreases y.len(),
{
    if y.len() == 0 {
        assert(x + y =~= x);
        assert(non_blank(x) + non_blank(y) =~= non_blank(x));
    } else {
        lemma_non_blank_concat(x, y.drop_last());
        assert((x + y).drop_last() =~= x + y.drop_last());
        assert((x + y).last() == y.last());
        if !is_blank(y.last()) {
            assert(non_blank(x) + non_blank(y) =~= (non_blank(x) + non_blank(y.drop_last())).push(
                y.last(),
            ));
        }
    }
}

/// Of one line, the line itself is left unless it is blank.
proof fn lemma_non_blank_one(line: Seq<char>)
    ensures
        non_blank(seq![line]) == if is_blank(line) {
            Seq::<Seq<char>>::empty()
        } else {
            seq![line]
        },
{
    let one = seq![line];
    assert(one.last() == line);
    assert(one.drop_last() =~= Seq::<Seq<char>>::empty());
    assert(non_blank(one.drop_last()) =~= Seq::<Seq<char>>::empty());
    if !is_blank(line) {
        assert(non_blank(one) =~= seq![line]);
    }
}

/// A record that is appended is read back, as the last line, whatever the
/// history held before: provided that the history is empty or ends with a
/// line feed, and that the record is not blank and holds no line feed.
pub proof fn lemma_appended_record_is_read_back(history: Seq<char>, record: Seq<char>)
    requires
        history.len() == 0 || history.last() == '\n',
        !is_blank(record),
        forall|i: int| 0 <= i < record.len() ==> record[i] != '\n',
    ensures
        record_lines(history + appended_entry(record)) == record_lines(history).push(record),
{
    let nothing = Seq::<char>::empty();
    let last = seq![record, nothing];
    lemma_split_concat(record, nothing, '\n');
    lemma_split_one_piece(record, '\n');
    lemma_split_one_piece(nothing, '\n');
    lemma_non_blank_one(record);
    lemma_non_blank_one(nothing);
    assert(is_blank(nothing));
    assert(record + seq!['\n'] + nothing =~= appended_entry(record));
    assert(split(appended_entry(record), '\n') =~= last);
    assert(last =~= seq![record] + seq![nothing]);
    lemma_non_blank_concat(seq![record], seq![nothing]);
    assert(non_blank(last) =~= seq![record]);
    if history.len() == 0 {
        assert(history =~= nothing);
        assert(history + appended_entry(record) =~= appended_entry(record));
        assert(record_lines(history).push(record) =~= seq![record]);
    } else {
        let body = history.drop_last();
        assert(history =~= body + seq!['\n'] + nothing);
        lemma_split_concat(body, nothing, '\n');
        assert(history + appended_entry(record) =~= body + seq!['\n'] + appended_entry(record));
        lemma_split_concat(body, appended_entry(record), '\n');
        let lines = split(body, '\n');
        lemma_non_blank_concat(lines, last);
        lemma_non_blank_concat(lines, seq![nothing]);
        assert(non_blank(lines) + seq![record] =~= non_blank(lines).push(record));
        assert(non_blank(lines) + Seq::<Seq<char>>::empty() =~= non_blank(lines));
    }
}

/// The records that were read, in their order: a line that did not parse
/// contributes none.
pub open spec fn parsed_records(parsed: Seq<Option<SyncRunSummaryView>>) -> Seq<
    SyncRunSummaryView,
>
    decreases parsed.len(),
{
    if parsed.len() == 0 {
        Seq::empty()
    } else {
        match parsed.last() {
            Some(r) => parsed_records(parsed.drop_last()).push(r),
            None => parsed_records(parsed.drop_last()),
        }
    }
}

/// The records of `s` that started at `t`, in their order.
pub open spec fn started_at(s: Seq<SyncRunSummaryView>, t: u64) -> Seq<SyncRunSummaryView>
    decreases s.len(),
{
    if s.len() == 0 {
        Seq::empty()
    } else if s.last().started_at_ms == t {
        started_at(s.drop_last(), t).push(s.last())
    } else {
        started_at(s.drop_last(), t)
    }
}

/// Whether the records come newest first.
pub open spec fn newest_first(r: Seq<SyncRunSummaryView>) -> bool {
    forall|i: int, j: int|
        0 <= i < j < r.len() ==> (#[trigger] r[i]).started_at_ms >= (#[trigger] r[j]).started_at_ms
}

/// Whether `r` lists the records of `s` newest first: `r` is in descending
/// order of start, it is as long as `s`, and for every time it holds exactly
/// the records of `s` that started then, in the order that they have in
/// `s`. So no record is lost, none is made up, and records that started
/// together keep their order. There is exactly one such listing of `s`.
pub open spec fn lists_newest_first(r: Seq<SyncRunSummaryView>, s: Seq<SyncRunSummaryView>)
    -> bool {
    &&& newest_first(r)
    &&& r.len() == s.len()
    &&& forall|t: u64| #[trigger] started_at(r, t) == started_at(s, t)
}

/// The records that started at one time, of two sequences one after the other.
proof fn lemma_started_at_concat(
    a: Seq<SyncRunSummaryView>,
    b: Seq<SyncRunSummaryView>,
    t: u64,
)
    ensures
        started_at(a + b, t) == started_at(a, t) + started_at(b, t),
    decreases b.len(),
{
    if b.len() == 0 {
        assert(a + b =~= a);
        assert(started_at(a, t) + started_at(b, t) =~= started_at(a, t));
    } else {
        lemma_started_at_concat(a, b.drop_last(), t);
        assert((a + b).drop_last() =~= a + b.drop_last());
        assert((a + b).last() == b.last());
        if b.last().started_at_ms == t {
            assert(started_at(a, t) + started_at(b, t) =~= (started_at(a, t) + started_at(
                b.drop_last(),
                t,
            )).push(b.last()));
        }
    }
}

/// Of records that all started at other times, none started at `t`.
proof fn lemma_started_at_nothing(s: Seq<SyncRunSummaryView>, t: u64)
    requires
        forall|i: int| 0 <= i < s.len() ==> (#[trigger] s[i]).started_at_ms != t,
    ensures
        started_at(s, t) == Seq::<SyncRunSummaryView>::empty(),
    decreases s.len(),
{
    if s.len() > 0 {
        let head = s.drop_last();
        assert forall|i: int| 0 <= i < head.len() implies (#[trigger] head[i]).started_at_ms
            != t by {
            assert(head[i] == s[i]);
        }
        lemma_started_at_nothing(head, t);
        assert(s[s.len() - 1].started_at_ms != t);
    }
}

/// Puts a record into a listing that is newest first, behind the records
/// that started no earlier than it.
fn insert_record(out: &mut Vec<SyncRunSummary>, record: SyncRunSummary)
    requires
        newest_first(summary_views(old(out)@)),
    ensures
        newest_first(summary_views(final(out)@)),
        final(out)@.len() == old(out)@.len() + 1,
        forall|t: u64| #[trigger]
            started_at(summary_views(final(out)@), t) == started_at(
                summary_views(old(out)@).push(record@),
                t,
            ),
{
    let ghost before = summary_views(out@);
    let mut pos: usize = 0;
    while pos < out.len() && out[pos].started_at_ms >= record.started_at_ms
        invariant
            pos <= out.len(),
            before == summary_views(out@),
            forall|i: int| 0 <= i < pos ==> (#[trigger] before[i]).started_at_ms
                >= record.started_at_ms,
        decreases out.len() - pos,
    {
        pos += 1;
    }
    let ghost x = record@;
    out.insert(pos, record);
    proof {
        let after = summary_views(out@);
        let head = before.take(pos as int);
        let tail = before.skip(pos as int);
        assert(after =~= head + seq![x] + tail);
        assert(before =~= head + tail);
        assert forall|i: int| 0 <= i < tail.len() implies (#[trigger] tail[i]).started_at_ms
            < x.started_at_ms by {
            assert(tail[i] == before[pos + i]);
            assert(before[pos as int].started_at_ms < x.started_at_ms);
        }
        assert forall|i: int, j: int| 0 <= i < j < after.len() implies (
        #[trigger] after[i]).started_at_ms >= (#[trigger] after[j]).started_at_ms by {
            if j < pos {
                assert(after[i] == before[i] && after[j] == before[j]);
            } else if j == pos {
                assert(after[i] == before[i]);
            } else if i < pos {
                assert(after[i] == before[i] && after[j] == tail[j - pos - 1]);
            } else if i == pos {
                assert(after[j] == tail[j - pos - 1]);
            } else {
                assert(after[i] == before[i - 1] && after[j] == before[j - 1]);
            }
        }
        assert forall|t: u64| #[trigger]
            started_at(after, t) == started_at(before.push(x), t) by {
            lemma_started_at_concat(head + seq![x], tail, t);
            lemma_started_at_concat(head, seq![x], t);
            lemma_started_at_concat(head, tail, t);
            assert(seq![x].drop_last() =~= Seq::<SyncRunSummaryView>::empty());
            assert(seq![x].last() == x);
            assert(started_at(seq![x].drop_last(), t) =~= Seq::<SyncRunSummaryView>::empty());
            assert(before.push(x).drop_last() =~= before);
            if x.started_at_ms == t {
                lemma_started_at_nothing(tail, t);
                assert(started_at(seq![x], t) =~= seq![x]);
                assert(started_at(after, t) =~= started_at(head, t).push(x));
                assert(started_at(before, t) =~= started_at(head, t));
            } else {
                assert(started_at(seq![x], t) =~= Seq::<SyncRunSummaryView>::empty());
                assert(started_at(after, t) =~= started_at(head, t) + started_at(tail, t));
            }
        }
    }
}

/// Lists the records of the history newest first. `parsed` holds, for each
/// line of the history in order, the record that the line parsed to, or
/// `None` where it did not parse: such a line is skipped.
pub fn list_runs(parsed: &Vec<Option<SyncRunSummary>>) -> (r: Vec<SyncRunSummary>)
    ensures
        lists_newest_first(summary_views(r@), parsed_records(opt_summary_views(parsed@))),
{
    let ghost all = opt_summary_views(parsed@);
    let mut out: Vec<SyncRunSummary> = Vec::new();
    let mut i: usize = 0;
    proof {
        assert(all.take(0) =~= Seq::<Option<SyncRunSummaryView>>::empty());
        assert(summary_views(out@) =~= Seq::<SyncRunSummaryView>::empty());
    }
    while i < parsed.len()
        invariant
            i <= parsed.len(),
            all == opt_summary_views(parsed@),
            lists_newest_first(summary_views(out@), parsed_records(all.take(i as int))),
        decreases parsed.len() - i,
    {
        proof {
            assert(all.take(i + 1).drop_last() =~= all.take(i as int));
            assert(all.take(i + 1).last() == opt_summary_view(parsed@[i as int]));
        }
        match &parsed[i] {
            Some(record) => {
                let ghost before = summary_views(out@);
                let ghost known = parsed_records(all.take(i as int));
                insert_record(&mut out, record.clone());
                proof {
                    assert forall|t: u64| #[trigger]
                        started_at(summary_views(out@), t) == started_at(
                            known.push(record@),
                            t,
                        ) by {
                        assert(started_at(summary_views(out@), t) == started_at(
                            before.push(record@),
                            t,
                        ));
                        assert(before.push(record@).drop_last() =~= before);
                        assert(known.push(record@).drop_last() =~= known);
                        assert(started_at(before, t) == started_at(known, t));
                    }
                }
            },
            None => {},
        }
        i += 1;
    }
    assert(all.take(parsed@.len() as int) =~= all);
    out
}


/// A record of `s` is among the records of `s` that started at its time.
proof fn lemma_started_at_holds(s: Seq<SyncRunSummaryView>, i: int)
    requires
        0 <= i < s.len(),
    ensures
        started_at(s, s[i].started_at_ms).len() > 0,
    decreases s.len(),
{
    if i < s.len() - 1 {
        lemma_started_at_holds(s.drop_last(), i);
    }
}

/// Where records of `s` started at `t`, one of them can be pointed at.
proof fn lemma_started_at_witness(s: Seq<SyncRunSummaryView>, t: u64) -> (i: int)
    requires
        started_at(s, t).len() > 0,
    ensures
        0 <= i < s.len(),
        s[i].started_at_ms == t,
    decreases s.len(),
{
    if s.last().started_at_ms == t {
        s.len() - 1
    } else {
        lemma_started_at_witness(s.drop_last(), t)
    }
}

/// Two listings that are newest first and hold the same records for every
/// time are one and the same.
proof fn lemma_same_listing(r1: Seq<SyncRunSummaryView>, r2: Seq<SyncRunSummaryView>)
    requires
        newest_first(r1),
        newest_first(r2),
        forall|t: u64| #[trigger] started_at(r1, t) == started_at(r2, t),
    ensures
        r1 == r2,
    decreases r1.len(),
{
    if r1.len() == 0 {
        if r2.len() > 0 {
            lemma_started_at_holds(r2, 0);
            assert(started_at(r1, r2[0].started_at_ms).len() == 0);
        }
        assert(r1 =~= r2);
    } else {
        let x = r1.last();
        let t = x.started_at_ms;
        assert(started_at(r1, t) == started_at(r1.drop_last(), t).push(x));
        assert(started_at(r2, t).len() > 0);
        let j = lemma_started_at_witness(r2, t);
        let y = r2.last();
        let t2 = y.started_at_ms;
        assert(r2[j].started_at_ms >= r2[r2.len() - 1].started_at_ms);
        lemma_started_at_holds(r2, r2.len() - 1);
        assert(started_at(r1, t2).len() > 0);
        let i = lemma_started_at_witness(r1, t2);
        assert(r1[i].started_at_ms >= r1[r1.len() - 1].started_at_ms);
        assert(t2 == t);
        assert(started_at(r2, t) == started_at(r2.drop_last(), t).push(y));
        let a = started_at(r1.drop_last(), t);
        let b = started_at(r2.drop_last(), t);
        assert(a.push(x) == b.push(y));
        assert(a.push(x).last() == x);
        assert(b.push(y).last() == y);
        assert(a =~= a.push(x).drop_last());
        assert(b =~= b.push(y).drop_last());
        let h1 = r1.drop_last();
        let h2 = r2.drop_last();
        assert forall|u: u64| #[trigger] started_at(h1, u) == started_at(h2, u) by {
            if u != t {
                assert(started_at(r1, u) == started_at(h1, u));
                assert(started_at(r2, u) == started_at(h2, u));
            }
        }
        assert forall|i: int, j: int| 0 <= i < j < h1.len() implies (
        #[trigger] h1[i]).started_at_ms >= (#[trigger] h1[j]).started_at_ms by {
            assert(h1[i] == r1[i] && h1[j] == r1[j]);
        }
        assert forall|i: int, j: int| 0 <= i < j < h2.len() implies (
        #[trigger] h2[i]).started_at_ms >= (#[trigger] h2[j]).started_at_ms by {
            assert(h2[i] == r2[i] && h2[j] == r2[j]);
        }
        lemma_same_listing(h1, h2);
        assert(r1 =~= h1.push(x));
        assert(r2 =~= h2.push(y));
    }
}

/// The records of a history have exactly one listing that is newest first:
/// the order of the history decides between records that started together.
pub proof fn lemma_listing_is_unique(
    r1: Seq<SyncRunSummaryView>,
    r2: Seq<SyncRunSummaryView>,
    s: Seq<SyncRunSummaryView>,
)
    requires
        lists_newest_first(r1, s),
        lists_newest_first(r2, s),
    ensures
        r1 == r2,
{
    lemma_same_listing(r1, r2);
}

/// A listing holds a record exactly if the history holds it: nothing is
/// lost, and nothing is made up.
pub proof fn lemma_listing_holds_the_same_records(
    r: Seq<SyncRunSummaryView>,
    s: Seq<SyncRunSummaryView>,
    x: SyncRunSummaryView,
)
    requires
        lists_newest_first(r, s),
    ensures
        r.contains(x) <==> s.contains(x),
{
    let t = x.started_at_ms;
    assert(started_at(r, t) == started_at(s, t));
    lemma_started_at_members(r, t, x);
    lemma_started_at_members(s, t, x);
}

/// The records that started at `t` are the records of `s` whose start is `t`.
proof fn lemma_started_at_members(s: Seq<SyncRunSummaryView>, t: u64, x: SyncRunSummaryView)
    ensures
        started_at(s, t).contains(x) <==> s.contains(x) && x.started_at_ms == t,
    decreases s.len(),
{
    if s.len() > 0 {
        let head = s.drop_last();
        lemma_started_at_members(head, t, x);
        let inner = started_at(head, t);
        if s.contains(x) {
            let i = choose|i: int| 0 <= i < s.len() && s[i] == x;
            if i < s.len() - 1 {
                assert(head[i] == x);
            }
        }
        if head.contains(x) {
            let i = choose|i: int| 0 <= i < head.len() && head[i] == x;
            assert(s[i] == x);
        }
        if s.last().started_at_ms == t {
            let full = inner.push(s.last());
            assert(full.last() == s.last());
            if inner.contains(x) {
                let i = choose|i: int| 0 <= i < inner.len() && inner[i] == x;
                assert(full[i] == x);
            }
            if full.contains(x) {
                let i = choose|i: int| 0 <= i < full.len() && full[i] == x;
                if i < inner.len() {
                    assert(inner[i] == x);
                } else {
                    assert(x == s.last());
                    assert(s[s.len() - 1] == x);
                }
            }
            if x == s.last() {
                assert(full[full.len() - 1] == x);
                assert(s[s.len() - 1] == x);
            }
        }
    }
}

/// The name of the log of the run `run_id` in the directory of logs.
pub open spec fn log_file_name(run_id: Seq<char>) -> Seq<char> {
    run_id + ".log"@
}

/// The names that lead from the home directory to the log of the run
/// `run_id`.
pub open spec fn log_file_names(run_id: Seq<char>) -> Seq<Seq<char>> {
    agentsync_dir_names().push("logs"@).push(log_file_name(run_id))
}

/// The place of the log of the run `run_id`: the file named after the run
/// in the directory of logs.
pub fn log_file_path(run_id: &str) -> (r: Result<LocalPath, String>)
    ensures
        r is Err ==> r->Err_0@ == home_missing_message(),
        r is Ok ==> r->Ok_0@.names == log_file_names(run_id@),
{
    match logs_dir() {
        Ok(dir) => {
            let name = concat2(run_id, ".log");
            Ok(dir.child(name.as_str()))
        },
        Err(e) => Err(e),
    }
}

} // verus!
