//! The live status of the run in flight.
//!
//! One [`SyncStatus`] is the slot that the worker of a run writes and that
//! any number of readers poll. At most one run is in flight: a slot is idle,
//! running, or stopped with a success or a failure, and only a new start
//! leads from a stopped slot back to a running one. The caller that shares
//! the slot between threads guards it with a lock and calls these functions
//! while holding it; none of them does anything but update fields in memory.

use vstd::prelude::*;
use crate::engine::{
    note_views, told_all, ProgressNote, ProgressNoteView, RunEventView, SyncProgress, SyncRunView,
};
use crate::runs::{
    clone_items, item_views, opt_summary_view, SyncItemResult, SyncItemResultView, SyncRunSummary,
    SyncRunSummaryView,
};
use crate::text::{
    bounded_cut, bounded_prefix, chars_of, clone_opt_text, leading_run, opt_text, string_of_range,
    trailing_cut, trim, CharClass,
};

verus! {

/// The state of the slot.
#[derive(Debug)]
pub struct SyncStatus {
    pub running: bool,
    pub run_id: Option<String>,
    pub started_at_ms: Option<u64>,
    pub ended_at_ms: Option<u64>,
    pub ok: Option<bool>,
    pub total_items: u32,
    pub done_items: u32,
    pub current_label: Option<String>,
    pub last_line: Option<String>,
    pub error: Option<String>,
    pub items: Vec<SyncItemResult>,
    pub summary: Option<SyncRunSummary>,
}

/// What a [`SyncStatus`] holds.
pub struct SyncStatusView {
    pub running: bool,
    pub run_id: Option<Seq<char>>,
    pub started_at_ms: Option<u64>,
    pub ended_at_ms: Option<u64>,
    pub ok: Option<bool>,
    pub total_items: u32,
    pub done_items: u32,
    pub current_label: Option<Seq<char>>,
    pub last_line: Option<Seq<char>>,
    pub error: Option<Seq<char>>,
    pub items: Seq<SyncItemResultView>,
    pub summary: Option<SyncRunSummaryView>,
}

impl View for SyncStatus {
    type V = SyncStatusView;

    open spec fn view(&self) -> SyncStatusView {
        SyncStatusView {
            running: self.running,
            run_id: opt_text(self.run_id),
            started_at_ms: self.started_at_ms,
            ended_at_ms: self.ended_at_ms,
            ok: self.ok,
            total_items: self.total_items,
            done_items: self.done_items,
            current_label: opt_text(self.current_label),
            last_line: opt_text(self.last_line),
            error: opt_text(self.error),
            items: item_views(self.items@),
            summary: opt_summary_view(self.summary),
        }
    }
}

/// The most bytes of an output line that the slot keeps.
pub const LAST_LINE_LIMIT: usize = 260;

/// The message of the error that a start gets while a run is in flight.
pub open spec fn busy_message() -> Seq<char> {
    "已有同步任务在运行中，请稍后再试。"@
}

/// The label that a run shows before its first unit starts.
pub open spec fn preparing_label() -> Seq<char> {
    "准备中…"@
}

/// The slot before any run.
pub open spec fn idle_status() -> SyncStatusView {
    SyncStatusView {
        running: false,
        run_id: None,
        started_at_ms: None,
        ended_at_ms: None,
        ok: None,
        total_items: 0,
        done_items: 0,
        current_label: None,
        last_line: None,
        error: None,
        items: Seq::empty(),
        summary: None,
    }
}

/// The slot right after a run has started.
pub open spec fn fresh_status(run_id: Seq<char>, started_at_ms: u64, total_items: u32)
    -> SyncStatusView {
    SyncStatusView {
        running: true,
        run_id: Some(run_id),
        started_at_ms: Some(started_at_ms),
        ended_at_ms: None,
        ok: None,
        total_items,
        done_items: 0,
        current_label: Some(preparing_label()),
        last_line: None,
        error: None,
        items: Seq::empty(),
        summary: None,
    }
}

/// The slot after a unit began.
pub open spec fn after_label(s: SyncStatusView, label: Seq<char>) -> SyncStatusView {
    if s.running {
        SyncStatusView { current_label: Some(label), ..s }
    } else {
        s
    }
}

/// What an output line leaves in the slot: nothing if it is blank, else its
/// trimmed text, cut to the longest prefix of at most [`LAST_LINE_LIMIT`]
/// bytes.
pub open spec fn kept_line(line: Seq<char>) -> Option<Seq<char>> {
    if trim(line).len() == 0 {
        None
    } else {
        Some(bounded_prefix(trim(line), LAST_LINE_LIMIT as nat))
    }
}

/// The slot after an output line arrived.
pub open spec fn after_line(s: SyncStatusView, line: Seq<char>) -> SyncStatusView {
    if s.running && kept_line(line) is Some {
        SyncStatusView { last_line: kept_line(line), ..s }
    } else {
        s
    }
}

/// The number of finished units after one more: it stops at the largest
/// number that the counter holds.
pub open spec fn one_more(done: u32) -> u32 {
    if done == u32::MAX {
        done
    } else {
        (done + 1) as u32
    }
}

/// The slot after the result of a unit arrived.
pub open spec fn after_item(s: SyncStatusView, item: SyncItemResultView) -> SyncStatusView {
    if s.running {
        SyncStatusView { done_items: one_more(s.done_items), items: s.items.push(item), ..s }
    } else {
        s
    }
}

/// The slot after the results of several units arrived, one after the other.
pub open spec fn after_items(s: SyncStatusView, items: Seq<SyncItemResultView>) -> SyncStatusView
    decreases items.len(),
{
    if items.len() == 0 {
        s
    } else {
        after_item(after_items(s, items.drop_last()), items.last())
    }
}

/// The slot after a run ended with a summary.
pub open spec fn after_finish_ok(s: SyncStatusView, summary: SyncRunSummaryView) -> SyncStatusView {
    SyncStatusView {
        running: false,
        ended_at_ms: Some(summary.ended_at_ms),
        ok: Some(summary.ok),
        summary: Some(summary),
        ..s
    }
}

/// The slot after the run `run_id` failed: untouched unless it tracks that run.
pub open spec fn after_finish_err(
    s: SyncStatusView,
    run_id: Seq<char>,
    ended_at_ms: u64,
    error: Seq<char>,
) -> SyncStatusView {
    if s.run_id == Some(run_id) {
        SyncStatusView {
            running: false,
            ended_at_ms: Some(ended_at_ms),
            ok: Some(false),
            error: Some(error),
            ..s
        }
    } else {
        s
    }
}

impl SyncStatus {
    /// The slot before any run.
    pub fn idle() -> (r: SyncStatus)
        ensures
            r@ == idle_status(),
    {
        let r = SyncStatus {
            running: false,
            run_id: None,
            started_at_ms: None,
            ended_at_ms: None,
            ok: None,
            total_items: 0,
            done_items: 0,
            current_label: None,
            last_line: None,
            error: None,
            items: Vec::new(),
            summary: None,
        };
        assert(r@.items =~= idle_status().items);
        r
    }
}

/// Starts a run. While a run is in flight the start is refused with the busy
/// error and the slot stays as it is. Otherwise the whole slot is replaced by
/// the fresh state of the new run: whatever an earlier run left is gone.
pub fn start_run(
    slot: &mut SyncStatus,
    run_id: String,
    started_at_ms: u64,
    total_items: u32,
) -> (r: Result<(), String>)
    ensures
        old(slot).running ==> r is Err && r->Err_0@ == busy_message() && *final(slot) == *old(slot),
        !old(slot).running ==> r is Ok && final(slot)@ == fresh_status(
            run_id@,
            started_at_ms,
            total_items,
        ),
{
    if slot.running {
        return Err("已有同步任务在运行中，请稍后再试。".to_string());
    }
    *slot = SyncStatus {
        running: true,
        run_id: Some(run_id),
        started_at_ms: Some(started_at_ms),
        ended_at_ms: None,
        ok: None,
        total_items,
        done_items: 0,
        current_label: Some("准备中…".to_string()),
        last_line: None,
        error: None,
        items: Vec::new(),
        summary: None,
    };
    assert(slot@.items =~= Seq::<SyncItemResultView>::empty());
    Ok(())
}

/// Shows `label` as the unit in progress. Without a run in flight nothing changes.
pub fn set_current_label(slot: &mut SyncStatus, label: String)
    ensures
        final(slot)@ == after_label(old(slot)@, label@),
        !old(slot).running ==> *final(slot) == *old(slot),
{
    if !slot.running {
        return;
    }
    slot.current_label = Some(label);
}

/// Shows `line` as the last line of output. A blank line is dropped, a long
/// one is cut. Without a run in flight nothing changes.
pub fn push_line(slot: &mut SyncStatus, line: String)
    ensures
        final(slot)@ == after_line(old(slot)@, line@),
        !old(slot).running || kept_line(line@) is None ==> *final(slot) == *old(slot),
{
    if !slot.running {
        return;
    }
    let v = chars_of(line.as_str());
    let lo = leading_run(&v, 0, v.len(), CharClass::Whitespace);
    let hi = trailing_cut(&v, lo, v.len(), CharClass::Whitespace);
    proof {
        assert(v@.subrange(0, v@.len() as int) =~= v@);
    }
    if lo == hi {
        return;
    }
    let end = bounded_cut(&v, lo, hi, LAST_LINE_LIMIT);
    slot.last_line = Some(string_of_range(&v, lo, end));
}

/// Records the result of a unit: it joins the results, and one more unit
/// counts as done. Without a run in flight nothing changes.
pub fn push_item_result(slot: &mut SyncStatus, result: SyncItemResult)
    ensures
        final(slot)@ == after_item(old(slot)@, result@),
        !old(slot).running ==> *final(slot) == *old(slot),
        final(slot).done_items >= old(slot).done_items,
{
    if !slot.running {
        return;
    }
    slot.done_items = slot.done_items.saturating_add(1);
    let ghost before = item_views(slot.items@);
    slot.items.push(result);
    assert(item_views(slot.items@) =~= before.push(result@));
}

/// Ends the run with its summary. This applies whatever run the slot tracks.
pub fn finish_ok(slot: &mut SyncStatus, summary: SyncRunSummary)
    ensures
        final(slot)@ == after_finish_ok(old(slot)@, summary@),
{
    slot.running = false;
    slot.ended_at_ms = Some(summary.ended_at_ms);
    slot.ok = Some(summary.ok);
    slot.summary = Some(summary);
}

/// Ends the run `run_id` with an error. Where the slot tracks another run, or
/// none, the call is ignored.
pub fn finish_err(slot: &mut SyncStatus, run_id: String, ended_at_ms: u64, error: String)
    ensures
        final(slot)@ == after_finish_err(old(slot)@, run_id@, ended_at_ms, error@),
        old(slot)@.run_id != Some(run_id@) ==> *final(slot) == *old(slot),
{
    let same_run = match &slot.run_id {
        Some(id) => id.eq(&run_id),
        None => false,
    };
    if !same_run {
        return;
    }
    slot.running = false;
    slot.ended_at_ms = Some(ended_at_ms);
    slot.ok = Some(false);
    slot.error = Some(error);
}

/// A copy of the slot that shares nothing with it.
pub fn get_status(slot: &SyncStatus) -> (r: SyncStatus)
    ensures
        r@ == slot@,
{
    SyncStatus {
        running: slot.running,
        run_id: clone_opt_text(&slot.run_id),
        started_at_ms: slot.started_at_ms,
        ended_at_ms: slot.ended_at_ms,
        ok: slot.ok,
        total_items: slot.total_items,
        done_items: slot.done_items,
        current_label: clone_opt_text(&slot.current_label),
        last_line: clone_opt_text(&slot.last_line),
        error: clone_opt_text(&slot.error),
        items: clone_items(&slot.items),
        summary: match &slot.summary {
            Some(s) => Some(s.clone()),
            None => None,
        },
    }
}

/// The slot after a note of a run arrived.
pub open spec fn after_note(s: SyncStatusView, note: ProgressNoteView) -> SyncStatusView {
    match note {
        ProgressNoteView::ItemStart { label } => after_label(s, label),
        ProgressNoteView::Line { text } => after_line(s, text),
        ProgressNoteView::ItemDone { result } => after_item(s, result),
    }
}

/// The slot after several notes of a run arrived, one after the other.
pub open spec fn after_notes(s: SyncStatusView, notes: Seq<ProgressNoteView>) -> SyncStatusView
    decreases notes.len(),
{
    if notes.len() == 0 {
        s
    } else {
        after_note(after_notes(s, notes.drop_last()), notes.last())
    }
}

impl SyncProgress for SyncStatus {
    /// The slot takes a note in as [`after_note`] says.
    open spec fn told(&self, after: &Self, note: ProgressNoteView) -> bool {
        after@ == after_note(self@, note)
    }

    fn on_item_start(&mut self, label: &str)
        ensures
            final(self)@ == after_label(old(self)@, label@),
    {
        set_current_label(self, label.to_owned());
    }

    fn on_line(&mut self, line: &str)
        ensures
            final(self)@ == after_line(old(self)@, line@),
    {
        push_line(self, line.to_owned());
    }

    fn on_item_done(&mut self, result: &SyncItemResult)
        ensures
            final(self)@ == after_item(old(self)@, result@),
    {
        push_item_result(self, result.clone());
    }
}

/// A slot that was told notes through the interface of an observer holds
/// what taking the notes in, one after the other, leaves in it.
pub proof fn lemma_told_slot_took_notes(
    before: SyncStatus,
    after: SyncStatus,
    notes: Seq<ProgressNoteView>,
)
    requires
        told_all(before, after, notes),
    ensures
        after@ == after_notes(before@, notes),
    decreases notes.len(),
{
    if notes.len() > 0 {
        let mid = choose|mid: SyncStatus|
            #![trigger mid.told(&after, notes.last())]
            told_all(before, mid, notes.drop_last()) && mid.told(&after, notes.last());
        lemma_told_slot_took_notes(before, mid, notes.drop_last());
    }
}

/// Takes the notes of a step of the run into the slot, in order.
pub fn observe(slot: &mut SyncStatus, notes: &Vec<ProgressNote>)
    ensures
        final(slot)@ == after_notes(old(slot)@, note_views(notes@)),
{
    let ghost all = note_views(notes@);
    let mut i: usize = 0;
    assert(all.take(0) =~= Seq::<ProgressNoteView>::empty());
    while i < notes.len()
        invariant
            i <= notes.len(),
            all == note_views(notes@),
            slot@ == after_notes(old(slot)@, all.take(i as int)),
        decreases notes.len() - i,
    {
        proof {
            assert(all.take(i + 1).drop_last() =~= all.take(i as int));
            assert(all.take(i + 1).last() == notes@[i as int]@);
        }
        match &notes[i] {
            ProgressNote::ItemStart { label } => slot.on_item_start(label.as_str()),
            ProgressNote::Line { text } => slot.on_line(text.as_str()),
            ProgressNote::ItemDone { result } => slot.on_item_done(result),
        }
        i += 1;
    }
    assert(all.take(notes@.len() as int) =~= all);
}

/// Whether a run is in flight with nothing of an end about it: this is the
/// state that a start leaves and that every note keeps.
pub open spec fn in_flight(s: SyncStatusView) -> bool {
    &&& s.running
    &&& s.run_id is Some
    &&& s.started_at_ms is Some
    &&& s.ended_at_ms is None
    &&& s.ok is None
    &&& s.error is None
    &&& s.summary is None
}

/// Whether the slot shows a run that ended with a summary.
pub open spec fn succeeded(s: SyncStatusView) -> bool {
    &&& !s.running
    &&& s.summary is Some
    &&& s.error is None
    &&& s.ok == Some(s.summary->0.ok)
    &&& s.ended_at_ms == Some(s.summary->0.ended_at_ms)
}

/// Whether the slot shows a run that ended with an error.
pub open spec fn failed(s: SyncStatusView) -> bool {
    &&& !s.running
    &&& s.error is Some
    &&& s.summary is None
    &&& s.ok == Some(false)
    &&& s.ended_at_ms is Some
}

/// A start leaves a run in flight, whatever was in the slot before: nothing
/// of the earlier run is left.
pub proof fn lemma_start_is_in_flight(run_id: Seq<char>, started_at_ms: u64, total_items: u32)
    ensures
        in_flight(fresh_status(run_id, started_at_ms, total_items)),
        fresh_status(run_id, started_at_ms, total_items).items.len() == 0,
        fresh_status(run_id, started_at_ms, total_items).done_items == 0,
{
}

/// The notes of a run keep it in flight, and change neither the run that
/// the slot tracks nor its start.
pub proof fn lemma_notes_keep_in_flight(s: SyncStatusView, notes: Seq<ProgressNoteView>)
    requires
        in_flight(s),
    ensures
        in_flight(after_notes(s, notes)),
        after_notes(s, notes).run_id == s.run_id,
        after_notes(s, notes).started_at_ms == s.started_at_ms,
        after_notes(s, notes).total_items == s.total_items,
    decreases notes.len(),
{
    if notes.len() > 0 {
        lemma_notes_keep_in_flight(s, notes.drop_last());
    }
}

/// A run in flight that ends with a summary has succeeded in ending: the
/// summary is there, and no error.
pub proof fn lemma_finish_ok_succeeds(s: SyncStatusView, summary: SyncRunSummaryView)
    requires
        in_flight(s),
    ensures
        succeeded(after_finish_ok(s, summary)),
        after_finish_ok(s, summary).summary == Some(summary),
{
}

/// An error for the run that the slot tracks, while it is in flight, ends
/// that run as failed: the error is there, and no summary.
pub proof fn lemma_finish_err_fails(
    s: SyncStatusView,
    run_id: Seq<char>,
    ended_at_ms: u64,
    error: Seq<char>,
)
    requires
        in_flight(s),
        s.run_id == Some(run_id),
    ensures
        failed(after_finish_err(s, run_id, ended_at_ms, error)),
        after_finish_err(s, run_id, ended_at_ms, error).error == Some(error),
{
}

/// An error for another run than the one that the slot tracks changes nothing.
pub proof fn lemma_finish_err_of_other_run_is_ignored(
    s: SyncStatusView,
    run_id: Seq<char>,
    ended_at_ms: u64,
    error: Seq<char>,
)
    requires
        s.run_id != Some(run_id),
    ensures
        after_finish_err(s, run_id, ended_at_ms, error) == s,
{
}

/// The number of finished units never goes down, however many results arrive.
pub proof fn lemma_done_items_never_decrease(s: SyncStatusView, items: Seq<SyncItemResultView>)
    ensures
        after_items(s, items).done_items >= s.done_items,
    decreases items.len(),
{
    if items.len() > 0 {
        lemma_done_items_never_decrease(s, items.drop_last());
    }
}

/// Results only ever join the end of the results of a run in flight: those
/// that are there stay, in their order, and the count follows them up to the
/// largest number that it holds.
pub proof fn lemma_items_are_appended(s: SyncStatusView, items: Seq<SyncItemResultView>)
    requires
        s.running,
    ensures
        after_items(s, items).running,
        after_items(s, items).items == s.items + items,
        s.done_items + items.len() <= u32::MAX ==> after_items(s, items).done_items
            == s.done_items + items.len(),
    decreases items.len(),
{
    if items.len() > 0 {
        lemma_items_are_appended(s, items.drop_last());
        assert(s.items + items =~= (s.items + items.drop_last()).push(items.last()));
    } else {
        assert(s.items + items =~= s.items);
    }
}

/// Without a run in flight no note changes the slot: a late note of a run
/// that was superseded cannot spoil what is there.
pub proof fn lemma_stray_notes_are_ignored(s: SyncStatusView, notes: Seq<ProgressNoteView>)
    requires
        !s.running,
    ensures
        after_notes(s, notes) == s,
    decreases notes.len(),
{
    if notes.len() > 0 {
        lemma_stray_notes_are_ignored(s, notes.drop_last());
    }
}

/// The notes of several results only, taken one after the other.
proof fn lemma_notes_append_items(
    s: SyncStatusView,
    notes: Seq<ProgressNoteView>,
)
    requires
        s.running,
    ensures
        after_notes(s, notes).running,
        after_notes(s, notes).items == s.items + noted_items(notes),
    decreases notes.len(),
{
    if notes.len() > 0 {
        lemma_notes_append_items(s, notes.drop_last());
        let head = noted_items(notes.drop_last());
        match notes.last() {
            ProgressNoteView::ItemDone { result } => {
                assert(s.items + noted_items(notes) =~= (s.items + head).push(result));
            },
            _ => {},
        }
    } else {
        assert(s.items + noted_items(notes) =~= s.items);
    }
}

/// The results that `notes` announce, in order.
pub open spec fn noted_items(notes: Seq<ProgressNoteView>) -> Seq<SyncItemResultView>
    decreases notes.len(),
{
    if notes.len() == 0 {
        Seq::empty()
    } else {
        match notes.last() {
            ProgressNoteView::ItemDone { result } => noted_items(notes.drop_last()).push(result),
            _ => noted_items(notes.drop_last()),
        }
    }
}

/// A slot that takes in the notes of every step shows the results of the
/// run: if it showed them before a step, it shows them after it.
pub proof fn lemma_slot_follows_run(s: SyncStatusView, run: SyncRunView, event: RunEventView)
    requires
        s.running,
        s.items == run.items,
    ensures
        after_notes(s, run.step(event).1.notes).running,
        after_notes(s, run.step(event).1.notes).items == run.step(event).0.items,
{
    let (next, out) = run.step(event);
    lemma_notes_append_items(s, out.notes);
    lemma_step_announces_result(run, event);
}

/// The notes of a step announce exactly the result that the step records.
pub proof fn lemma_step_announces_result(run: SyncRunView, event: RunEventView)
    ensures
        run.step(event).0.items == run.items + noted_items(run.step(event).1.notes),
{
    let (next, out) = run.step(event);
    let notes = out.notes;
    if notes.len() == 0 {
        assert(run.items + noted_items(notes) =~= run.items);
    } else {
        match notes.last() {
            ProgressNoteView::ItemDone { result } => {
                lemma_lines_announce_nothing(notes.drop_last());
                assert(run.items + noted_items(notes) =~= run.items.push(result));
            },
            _ => {
                lemma_lines_announce_nothing(notes);
                assert(run.items + noted_items(notes) =~= run.items);
            },
        }
    }
}

/// Notes among which no result is announce none.
proof fn lemma_lines_announce_nothing(notes: Seq<ProgressNoteView>)
    requires
        forall|i: int| 0 <= i < notes.len() ==> !(#[trigger] notes[i] is ItemDone),
    ensures
        noted_items(notes) == Seq::<SyncItemResultView>::empty(),
    decreases notes.len(),
{
    if notes.len() > 0 {
        let head = notes.drop_last();
        assert forall|i: int| 0 <= i < head.len() implies !(#[trigger] head[i] is ItemDone) by {
            assert(head[i] == notes[i]);
        }
        lemma_lines_announce_nothing(head);
        assert(!(notes[notes.len() - 1] is ItemDone));
    }
}


} // verus!
