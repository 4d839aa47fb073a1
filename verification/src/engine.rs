//! The run in progress: a state machine that sequences the units of a plan.
//!
//! The machine never touches the disk or starts a process. It says what it
//! waits for; the caller does that and hands back what happened. Units are
//! taken strictly one after the other. A unit whose source is missing is
//! recorded as a success that was skipped; a unit that fails is recorded as a
//! failure; in both cases the run goes on with the next unit.

use vstd::prelude::*;
use crate::config::AgentSyncConfigView;
use crate::plan::{
    lemma_nothing_enabled_plans_nothing, planned_units, unit_views, LocalSourcesView, SourceKind,
    SyncUnit, SyncUnitView,
};
use crate::rclone::{spawn_failure_message, spawn_failure_text, ProcessOutcome, ProcessOutcomeView};
use crate::runs::{
    all_ok, clone_items, every_item_ok, item_views, SyncItemResult, SyncItemResultView,
    SyncRunSummary, SyncRunSummaryView,
};
use crate::text::{
    blank, clone_texts, concat2, concat3, is_blank, join_with, joined, push_signed_decimal,
    signed_decimal, split, split_at_char, texts, trim_end, trimmed_end,
};

verus! {

/// What the caller reports to the machine.
#[derive(Debug)]
pub enum RunEvent {
    /// The source of the current unit was looked for.
    SourceProbed { exists: bool },
    /// The tool was run for the current unit.
    ProcessEnded { outcome: ProcessOutcome },
}

/// What a [`RunEvent`] holds.
pub enum RunEventView {
    SourceProbed { exists: bool },
    ProcessEnded { outcome: ProcessOutcomeView },
}

impl View for RunEvent {
    type V = RunEventView;

    open spec fn view(&self) -> RunEventView {
        match *self {
            RunEvent::SourceProbed { exists } => RunEventView::SourceProbed { exists },
            RunEvent::ProcessEnded { outcome } => RunEventView::ProcessEnded { outcome: outcome@ },
        }
    }
}

/// What the machine waits for.
#[derive(Debug)]
pub enum RunStep {
    /// Look whether `source` is there, as a directory or as a file.
    Probe { source: String, kind: SourceKind },
    /// Run the tool with `args`.
    Execute { args: Vec<String> },
    /// Every unit has its result: conclude the run.
    Finish,
}

/// What a [`RunStep`] holds.
pub enum RunStepView {
    Probe { source: Seq<char>, kind: SourceKind },
    Execute { args: Seq<Seq<char>> },
    Finish,
}

impl View for RunStep {
    type V = RunStepView;

    open spec fn view(&self) -> RunStepView {
        match *self {
            RunStep::Probe { source, kind } => RunStepView::Probe { source: source@, kind },
            RunStep::Execute { args } => RunStepView::Execute { args: texts(args@) },
            RunStep::Finish => RunStepView::Finish,
        }
    }
}

/// What a step tells the observers of the run.
#[derive(Debug)]
pub enum ProgressNote {
    /// A unit begins.
    ItemStart { label: String },
    /// The tool printed a line.
    Line { text: String },
    /// A unit has its result.
    ItemDone { result: SyncItemResult },
}

/// What a [`ProgressNote`] holds.
pub enum ProgressNoteView {
    ItemStart { label: Seq<char> },
    Line { text: Seq<char> },
    ItemDone { result: SyncItemResultView },
}

impl View for ProgressNote {
    type V = ProgressNoteView;

    open spec fn view(&self) -> ProgressNoteView {
        match *self {
            ProgressNote::ItemStart { label } => ProgressNoteView::ItemStart { label: label@ },
            ProgressNote::Line { text } => ProgressNoteView::Line { text: text@ },
            ProgressNote::ItemDone { result } => ProgressNoteView::ItemDone { result: result@ },
        }
    }
}

/// What a sequence of notes holds.
pub open spec fn note_views(notes: Seq<ProgressNote>) -> Seq<ProgressNoteView> {
    Seq::new(notes.len(), |i: int| notes[i]@)
}

/// What one step hands to the caller: lines to append to the log of the run,
/// and notes for its observers, both in order.
#[derive(Debug)]
pub struct StepOutput {
    pub log_lines: Vec<String>,
    pub notes: Vec<ProgressNote>,
}

/// What a [`StepOutput`] holds.
pub struct StepOutputView {
    pub log_lines: Seq<Seq<char>>,
    pub notes: Seq<ProgressNoteView>,
}

impl View for StepOutput {
    type V = StepOutputView;

    open spec fn view(&self) -> StepOutputView {
        StepOutputView { log_lines: texts(self.log_lines@), notes: note_views(self.notes@) }
    }
}

/// The output of a step in which nothing happened.
pub open spec fn no_output() -> StepOutputView {
    StepOutputView { log_lines: Seq::empty(), notes: Seq::empty() }
}

/// The first line of the log of a run.
pub open spec fn log_header(run_id: Seq<char>) -> Seq<char> {
    "AgentSync run_id: "@ + run_id
}

/// The line that opens the section of a unit in the log.
pub open spec fn section_marker(label: Seq<char>) -> Seq<char> {
    "---- "@ + label + " ----"@
}

/// The line that records the exact command line of a unit.
pub open spec fn command_line(args: Seq<Seq<char>>) -> Seq<char> {
    "cmd: rclone "@ + joined(args, " "@)
}

/// An exit code as the failure message shows it.
pub open spec fn exit_code_text(code: Option<i32>) -> Seq<char> {
    match code {
        Some(n) => "Some("@ + signed_decimal(n as int) + ")"@,
        None => "None"@,
    }
}

/// The message of a unit whose process ended without success.
pub open spec fn exit_failure_message(code: Option<i32>) -> Seq<char> {
    "失败（exit code "@ + exit_code_text(code) + "）"@
}

/// The result of a unit whose source is missing: a success, with the skip
/// message of the unit.
pub open spec fn skipped_result(unit: SyncUnitView) -> SyncItemResultView {
    SyncItemResultView { label: unit.label, ok: true, message: unit.skip_message }
}

/// The result of a unit for which the tool was run.
pub open spec fn attempted_result(tool: Seq<char>, unit: SyncUnitView, outcome: ProcessOutcomeView)
    -> SyncItemResultView {
    match outcome {
        ProcessOutcomeView::SpawnFailed { cause } => SyncItemResultView {
            label: unit.label,
            ok: false,
            message: spawn_failure_message(tool, cause),
        },
        ProcessOutcomeView::Exited { success, code, stdout, stderr } => if success {
            SyncItemResultView { label: unit.label, ok: true, message: "完成"@ }
        } else {
            SyncItemResultView {
                label: unit.label,
                ok: false,
                message: exit_failure_message(code),
            }
        },
    }
}

/// The text of an output stream as the log keeps it: nothing if the stream
/// is blank, else its text up to the trailing whitespace.
pub open spec fn stream_log(text: Seq<char>) -> Seq<Seq<char>> {
    if is_blank(text) {
        Seq::empty()
    } else {
        seq![trim_end(text)]
    }
}

/// The lines that the log keeps of the attempt to run the tool: the standard
/// output, then the standard error; or why the process did not start.
pub open spec fn outcome_log(tool: Seq<char>, outcome: ProcessOutcomeView) -> Seq<Seq<char>> {
    match outcome {
        ProcessOutcomeView::SpawnFailed { cause } => seq![
            "执行失败："@ + spawn_failure_message(tool, cause),
        ],
        ProcessOutcomeView::Exited { success, code, stdout, stderr } => stream_log(stdout)
            + stream_log(stderr),
    }
}

/// One note for each line of `lines`.
pub open spec fn line_notes(lines: Seq<Seq<char>>) -> Seq<ProgressNoteView> {
    Seq::new(lines.len(), |i: int| ProgressNoteView::Line { text: lines[i] })
}

/// The notes for what the tool printed: each line of the standard output,
/// then each line of the standard error.
pub open spec fn outcome_notes(outcome: ProcessOutcomeView) -> Seq<ProgressNoteView> {
    match outcome {
        ProcessOutcomeView::SpawnFailed { cause } => Seq::empty(),
        ProcessOutcomeView::Exited { success, code, stdout, stderr } => line_notes(
            split(stdout, '\n'),
        ) + line_notes(split(stderr, '\n')),
    }
}

/// The lines that close the log of a run.
pub open spec fn closing_log(ok: bool, backup_root: Seq<char>) -> Seq<Seq<char>> {
    seq![
        "---- summary ----"@,
        "ok: "@ + (if ok {
            "true"@
        } else {
            "false"@
        }),
        "backup_root: "@ + backup_root,
    ]
}

/// A run in progress.
pub struct SyncRun {
    tool: String,
    run_id: String,
    started_at_ms: u64,
    backup_root: String,
    log_path: String,
    units: Vec<SyncUnit>,
    items: Vec<SyncItemResult>,
    launched: bool,
}

/// What a [`SyncRun`] holds: what identifies the run, its units, the results
/// so far, and whether the tool has been started for the current unit.
pub struct SyncRunView {
    pub tool: Seq<char>,
    pub run_id: Seq<char>,
    pub started_at_ms: u64,
    pub backup_root: Seq<char>,
    pub log_path: Seq<char>,
    pub units: Seq<SyncUnitView>,
    pub items: Seq<SyncItemResultView>,
    pub launched: bool,
}

impl SyncRunView {
    /// A run is well formed when there is one result for each unit that was
    /// attempted, under the label of that unit, and the tool is started only
    /// for a unit that has no result yet.
    pub open spec fn wf(self) -> bool {
        &&& self.items.len() <= self.units.len()
        &&& self.launched ==> self.items.len() < self.units.len()
        &&& forall|i: int|
            0 <= i < self.items.len() ==> (#[trigger] self.items[i]).label == self.units[i].label
    }

    /// Whether every unit has its result.
    pub open spec fn done(self) -> bool {
        self.items.len() >= self.units.len()
    }

    /// The unit that the run works on. This is meaningful until the run is done.
    pub open spec fn current(self) -> SyncUnitView {
        self.units[self.items.len() as int]
    }

    /// What the run waits for.
    pub open spec fn awaited(self) -> RunStepView {
        if self.done() {
            RunStepView::Finish
        } else if self.launched {
            RunStepView::Execute { args: self.current().args }
        } else {
            RunStepView::Probe { source: self.current().source, kind: self.current().source_kind }
        }
    }

    /// The run with one more result, ready for the next unit.
    pub open spec fn with_result(self, item: SyncItemResultView) -> SyncRunView {
        SyncRunView { items: self.items.push(item), launched: false, ..self }
    }

    /// The state after `event`, and what the step hands out. An event that
    /// the run does not wait for changes nothing.
    pub open spec fn step(self, event: RunEventView) -> (SyncRunView, StepOutputView) {
        let unit = self.current();
        match (self.awaited(), event) {
            (RunStepView::Probe { .. }, RunEventView::SourceProbed { exists }) => if exists {
                (
                    SyncRunView { launched: true, ..self },
                    StepOutputView {
                        log_lines: seq![section_marker(unit.label), command_line(unit.args)],
                        notes: seq![ProgressNoteView::ItemStart { label: unit.label }],
                    },
                )
            } else {
                (
                    self.with_result(skipped_result(unit)),
                    StepOutputView {
                        log_lines: Seq::empty(),
                        notes: seq![
                            ProgressNoteView::ItemStart { label: unit.label },
                            ProgressNoteView::ItemDone { result: skipped_result(unit) },
                        ],
                    },
                )
            },
            (RunStepView::Execute { .. }, RunEventView::ProcessEnded { outcome }) => (
                self.with_result(attempted_result(self.tool, unit, outcome)),
                StepOutputView {
                    log_lines: outcome_log(self.tool, outcome),
                    notes: outcome_notes(outcome).push(
                        ProgressNoteView::ItemDone {
                            result: attempted_result(self.tool, unit, outcome),
                        },
                    ),
                },
            ),
            _ => (self, no_output()),
        }
    }

    /// The summary of the run, ended at `ended_at_ms`: it is a success
    /// exactly when every unit is.
    pub open spec fn summary(self, ended_at_ms: u64) -> SyncRunSummaryView {
        SyncRunSummaryView {
            run_id: self.run_id,
            started_at_ms: self.started_at_ms,
            ended_at_ms,
            ok: all_ok(self.items),
            backup_root: self.backup_root,
            log_path: self.log_path,
            items: self.items,
        }
    }
}

/// How a run ends: its summary, and the lines that close its log.
#[derive(Debug)]
pub struct RunConclusion {
    pub summary: SyncRunSummary,
    pub log_lines: Vec<String>,
}

/// What an optional conclusion holds.
pub open spec fn opt_conclusion_view(o: Option<RunConclusion>) -> Option<
    (SyncRunSummaryView, Seq<Seq<char>>),
> {
    match o {
        Some(c) => Some((c.summary@, texts(c.log_lines@))),
        None => None,
    }
}

impl View for SyncRun {
    type V = SyncRunView;

    closed spec fn view(&self) -> SyncRunView {
        SyncRunView {
            tool: self.tool@,
            run_id: self.run_id@,
            started_at_ms: self.started_at_ms,
            backup_root: self.backup_root@,
            log_path: self.log_path@,
            units: unit_views(self.units@),
            items: item_views(self.items@),
            launched: self.launched,
        }
    }
}

/// The text of an exit code as the failure message shows it.
fn exit_code_string(code: Option<i32>) -> (r: String)
    ensures
        r@ == exit_code_text(code),
{
    match code {
        Some(n) => {
            let mut r = "Some(".to_string();
            push_signed_decimal(&mut r, n);
            r.append(")");
            r
        },
        None => "None".to_string(),
    }
}

/// The lines that the log keeps of one output stream.
fn push_stream_log(lines: &mut Vec<String>, text: &str)
    ensures
        texts(final(lines)@) == texts(old(lines)@) + stream_log(text@),
{
    if !blank(text) {
        lines.push(trimmed_end(text));
        assert(texts(lines@) =~= texts(old(lines)@) + seq![trim_end(text@)]);
    } else {
        assert(texts(lines@) =~= texts(old(lines)@) + Seq::<Seq<char>>::empty());
    }
}

/// Appends one note for each line of `text`.
fn push_line_notes(notes: &mut Vec<ProgressNote>, text: &str)
    ensures
        note_views(final(notes)@) == note_views(old(notes)@) + line_notes(split(text@, '\n')),
{
    let lines = split_at_char(text, '\n');
    let ghost all = texts(lines@);
    let mut i: usize = 0;
    assert(note_views(notes@) =~= note_views(old(notes)@) + line_notes(all.take(0)));
    while i < lines.len()
        invariant
            i <= lines.len(),
            all == texts(lines@),
            note_views(notes@) == note_views(old(notes)@) + line_notes(all.take(i as int)),
        decreases lines.len() - i,
    {
        let ghost before = note_views(notes@);
        notes.push(ProgressNote::Line { text: lines[i].clone() });
        assert(note_views(notes@) =~= before.push(ProgressNoteView::Line { text: all[i as int] }));
        assert(line_notes(all.take(i + 1)) =~= line_notes(all.take(i as int)).push(
            ProgressNoteView::Line { text: all[i as int] },
        ));
        i += 1;
    }
    assert(all.take(lines@.len() as int) =~= all);
}

impl SyncRun {
    /// A run that has attempted nothing yet. `tool` is the place of the
    /// transfer tool, `backup_root` the backup root of the run, and
    /// `log_path` the place of its log.
    pub fn begin(
        tool: String,
        run_id: String,
        started_at_ms: u64,
        backup_root: String,
        log_path: String,
        units: Vec<SyncUnit>,
    ) -> (r: SyncRun)
        ensures
            r@ == (SyncRunView {
                tool: tool@,
                run_id: run_id@,
                started_at_ms,
                backup_root: backup_root@,
                log_path: log_path@,
                units: unit_views(units@),
                items: Seq::empty(),
                launched: false,
            }),
            r@.wf(),
    {
        let r = SyncRun {
            tool,
            run_id,
            started_at_ms,
            backup_root,
            log_path,
            units,
            items: Vec::new(),
            launched: false,
        };
        assert(r@.items =~= Seq::<SyncItemResultView>::empty());
        r
    }

    /// The first line of the log of the run.
    pub fn log_header_line(&self) -> (r: String)
        ensures
            r@ == log_header(self@.run_id),
    {
        concat2("AgentSync run_id: ", self.run_id.as_str())
    }

    /// What the run waits for.
    pub fn pending(&self) -> (r: RunStep)
        ensures
            r@ == self@.awaited(),
    {
        let cur = self.items.len();
        if cur >= self.units.len() {
            RunStep::Finish
        } else if self.launched {
            RunStep::Execute { args: clone_texts(&self.units[cur].args) }
        } else {
            RunStep::Probe {
                source: self.units[cur].source.clone(),
                kind: self.units[cur].source_kind,
            }
        }
    }

    /// Takes `event` in. The run moves on if it waited for that event, and
    /// stays as it is if not.
    pub fn advance(&mut self, event: RunEvent) -> (out: StepOutput)
        ensures
            (final(self)@, out@) == old(self)@.step(event@),
            old(self)@.wf() ==> final(self)@.wf(),
    {
        let mut out = StepOutput { log_lines: Vec::new(), notes: Vec::new() };
        assert(out@.log_lines =~= no_output().log_lines);
        assert(out@.notes =~= no_output().notes);
        let cur = self.items.len();
        if cur >= self.units.len() {
            return out;
        }
        let ghost unit = self@.current();
        match event {
            RunEvent::SourceProbed { exists } => {
                if self.launched {
                    return out;
                }
                let label = self.units[cur].label.clone();
                out.notes.push(ProgressNote::ItemStart { label: label.clone() });
                if exists {
                    out.log_lines.push(concat3("---- ", label.as_str(), " ----"));
                    let line = join_with(&self.units[cur].args, " ");
                    out.log_lines.push(concat2("cmd: rclone ", line.as_str()));
                    self.launched = true;
                    proof {
                        assert(out@.log_lines =~= seq![
                            section_marker(unit.label),
                            command_line(unit.args),
                        ]);
                        assert(out@.notes =~= seq![
                            ProgressNoteView::ItemStart { label: unit.label },
                        ]);
                    }
                } else {
                    let item = SyncItemResult {
                        label,
                        ok: true,
                        message: self.units[cur].skip_message.clone(),
                    };
                    out.notes.push(ProgressNote::ItemDone { result: item.clone() });
                    let ghost before = item_views(self.items@);
                    self.items.push(item);
                    proof {
                        assert(item_views(self.items@) =~= before.push(skipped_result(unit)));
                        assert(out@.log_lines =~= Seq::<Seq<char>>::empty());
                        assert(out@.notes =~= seq![
                            ProgressNoteView::ItemStart { label: unit.label },
                            ProgressNoteView::ItemDone { result: skipped_result(unit) },
                        ]);
                    }
                }
                out
            },
            RunEvent::ProcessEnded { outcome } => {
                if !self.launched {
                    return out;
                }
                let label = self.units[cur].label.clone();
                let item = match &outcome {
                    ProcessOutcome::SpawnFailed { cause } => {
                        let message = spawn_failure_text(self.tool.as_str(), cause.as_str());
                        out.log_lines.push(concat2("执行失败：", message.as_str()));
                        SyncItemResult { label, ok: false, message }
                    },
                    ProcessOutcome::Exited { success, code, stdout, stderr } => {
                        push_stream_log(&mut out.log_lines, stdout.as_str());
                        push_stream_log(&mut out.log_lines, stderr.as_str());
                        push_line_notes(&mut out.notes, stdout.as_str());
                        push_line_notes(&mut out.notes, stderr.as_str());
                        if *success {
                            SyncItemResult { label, ok: true, message: "完成".to_string() }
                        } else {
                            let code_text = exit_code_string(*code);
                            SyncItemResult {
                                label,
                                ok: false,
                                message: concat3("失败（exit code ", code_text.as_str(), "）"),
                            }
                        }
                    },
                };
                let ghost result = attempted_result(self@.tool, unit, outcome@);
                assert(item@ == result);
                assert(out@.log_lines =~= outcome_log(self@.tool, outcome@));
                assert(note_views(out.notes@) =~= outcome_notes(outcome@));
                let ghost notes_before = note_views(out.notes@);
                out.notes.push(ProgressNote::ItemDone { result: item.clone() });
                assert(note_views(out.notes@) =~= notes_before.push(
                    ProgressNoteView::ItemDone { result },
                ));
                self.launched = false;
                let ghost before = item_views(self.items@);
                self.items.push(item);
                assert(item_views(self.items@) =~= before.push(result));
                out
            },
        }
    }

    /// Concludes the run at `ended_at_ms`, once every unit has its result.
    /// Before that there is nothing to conclude.
    pub fn conclude(&self, ended_at_ms: u64) -> (r: Option<RunConclusion>)
        ensures
            opt_conclusion_view(r) == if self@.done() {
                Some(
                    (
                        self@.summary(ended_at_ms),
                        closing_log(all_ok(self@.items), self@.backup_root),
                    ),
                )
            } else {
                None
            },
    {
        if self.items.len() < self.units.len() {
            return None;
        }
        let ok = every_item_ok(&self.items);
        let summary = SyncRunSummary {
            run_id: self.run_id.clone(),
            started_at_ms: self.started_at_ms,
            ended_at_ms,
            ok,
            backup_root: self.backup_root.clone(),
            log_path: self.log_path.clone(),
            items: clone_items(&self.items),
        };
        let mut log_lines: Vec<String> = Vec::new();
        log_lines.push("---- summary ----".to_string());
        log_lines.push(concat2("ok: ", if ok { "true" } else { "false" }));
        log_lines.push(concat2("backup_root: ", self.backup_root.as_str()));
        assert(texts(log_lines@) =~= closing_log(ok, self@.backup_root));
        Some(RunConclusion { summary, log_lines })
    }
}

/// An observer of a run: it is told when a unit begins, what the tool
/// prints, and when a unit has its result.
///
/// What an observer makes of a note is its own business, and
/// [`SyncProgress::told`] is its name for it: the relation between the
/// observer before a note and after it. Each method tells one note.
pub trait SyncProgress: Sized {
    /// Whether `after` is this observer once it has been told `note`. An
    /// observer that does not say what it makes of a note may make anything
    /// of it.
    open spec fn told(&self, after: &Self, note: ProgressNoteView) -> bool {
        true
    }

    /// The unit called `label` begins.
    fn on_item_start(&mut self, label: &str)
        ensures
            old(self).told(final(self), ProgressNoteView::ItemStart { label: label@ }),
    ;

    /// The tool printed `line`.
    fn on_line(&mut self, line: &str)
        ensures
            old(self).told(final(self), ProgressNoteView::Line { text: line@ }),
    ;

    /// A unit ended with `result`.
    fn on_item_done(&mut self, result: &SyncItemResult)
        ensures
            old(self).told(final(self), ProgressNoteView::ItemDone { result: result@ }),
    ;
}

/// Whether `after` is the observer `before` once it has been told each note
/// of `notes`, in order, and nothing else.
pub open spec fn told_all<P: SyncProgress>(before: P, after: P, notes: Seq<ProgressNoteView>)
    -> bool
    decreases notes.len(),
{
    if notes.len() == 0 {
        after == before
    } else {
        exists|mid: P|
            #![trigger mid.told(&after, notes.last())]
            told_all(before, mid, notes.drop_last()) && mid.told(&after, notes.last())
    }
}

/// An observer that was told some notes and is then told one more was told
/// them all.
pub proof fn lemma_told_one_more<P: SyncProgress>(
    before: P,
    mid: P,
    after: P,
    notes: Seq<ProgressNoteView>,
)
    requires
        notes.len() > 0,
        told_all(before, mid, notes.drop_last()),
        mid.told(&after, notes.last()),
    ensures
        told_all(before, after, notes),
{
}

/// Tells `progress` each note of `notes`, in order: the start of a unit
/// through `on_item_start`, a line through `on_line`, a result through
/// `on_item_done`.
pub fn report<P: SyncProgress>(notes: &Vec<ProgressNote>, progress: &mut P)
    ensures
        told_all(*old(progress), *final(progress), note_views(notes@)),
{
    let ghost all = note_views(notes@);
    let mut i: usize = 0;
    while i < notes.len()
        invariant
            i <= notes.len(),
            all == note_views(notes@),
            told_all(*old(progress), *progress, all.take(i as int)),
        decreases notes.len() - i,
    {
        let ghost before = *progress;
        match &notes[i] {
            ProgressNote::ItemStart { label } => progress.on_item_start(label.as_str()),
            ProgressNote::Line { text } => progress.on_line(text.as_str()),
            ProgressNote::ItemDone { result } => progress.on_item_done(result),
        }
        proof {
            let next = all.take(i + 1);
            assert(next.drop_last() =~= all.take(i as int));
            assert(next.last() == notes@[i as int]@);
            lemma_told_one_more(*old(progress), before, *progress, next);
        }
        i += 1;
    }
    assert(all.take(notes@.len() as int) =~= all);
}

/// A step changes neither what identifies the run nor its units, and it
/// leaves the results that are there as they are: at most one result joins
/// them, at the end.
pub proof fn lemma_step_appends(s: SyncRunView, event: RunEventView)
    ensures
        s.step(event).0.tool == s.tool,
        s.step(event).0.run_id == s.run_id,
        s.step(event).0.started_at_ms == s.started_at_ms,
        s.step(event).0.backup_root == s.backup_root,
        s.step(event).0.log_path == s.log_path,
        s.step(event).0.units == s.units,
        s.step(event).0.items == s.items || (s.step(event).0.items.len() == s.items.len() + 1
            && s.step(event).0.items.drop_last() == s.items),
{
    let t = s.step(event).0;
    if t.items.len() == s.items.len() + 1 {
        assert(t.items.drop_last() =~= s.items);
    }
}

/// A step keeps a well-formed run well formed.
pub proof fn lemma_step_keeps_wf(s: SyncRunView, event: RunEventView)
    requires
        s.wf(),
    ensures
        s.step(event).0.wf(),
{
}

/// The state of a run after several events, taken in one after the other.
pub open spec fn after_events(s: SyncRunView, events: Seq<RunEventView>) -> SyncRunView
    decreases events.len(),
{
    if events.len() == 0 {
        s
    } else {
        after_events(s, events.drop_last()).step(events.last()).0
    }
}

/// Whatever events arrive, in whatever order: the units of a run stay as
/// they are, a well-formed run stays well formed, and its results are only
/// ever appended to, never changed or taken back.
pub proof fn lemma_results_are_append_only(s: SyncRunView, events: Seq<RunEventView>)
    ensures
        after_events(s, events).units == s.units,
        after_events(s, events).run_id == s.run_id,
        after_events(s, events).backup_root == s.backup_root,
        s.wf() ==> after_events(s, events).wf(),
        s.items.len() <= after_events(s, events).items.len() <= s.items.len() + events.len(),
        after_events(s, events).items.take(s.items.len() as int) == s.items,
    decreases events.len(),
{
    if events.len() == 0 {
        assert(s.items.take(s.items.len() as int) =~= s.items);
    } else {
        let before = after_events(s, events.drop_last());
        lemma_results_are_append_only(s, events.drop_last());
        lemma_step_appends(before, events.last());
        let after = before.step(events.last()).0;
        if before.wf() {
            lemma_step_keeps_wf(before, events.last());
        }
        assert(after.items.take(s.items.len() as int) =~= before.items.take(
            s.items.len() as int,
        ));
    }
}

/// A unit whose source is missing is no failure and does not stop the run:
/// its result is a success with the skip message of the unit, and the run
/// turns to the next unit, or is done if there is none.
pub proof fn lemma_missing_source_is_skipped(s: SyncRunView)
    requires
        !s.done(),
        !s.launched,
    ensures
        ({
            let t = s.step(RunEventView::SourceProbed { exists: false }).0;
            &&& t.items == s.items.push(skipped_result(s.current()))
            &&& t.items.last().ok
            &&& t.items.last().label == s.current().label
            &&& t.items.last().message == s.current().skip_message
            &&& t.units == s.units
            &&& t.awaited() == if s.items.len() + 1 < s.units.len() {
                RunStepView::Probe {
                    source: s.units[s.items.len() as int + 1].source,
                    kind: s.units[s.items.len() as int + 1].source_kind,
                }
            } else {
                RunStepView::Finish
            }
        }),
{
}

/// A unit that was attempted never stops the run, however the attempt
/// ended: its result is recorded, a failure as a failure, and the run turns
/// to the next unit, or is done if there is none.
pub proof fn lemma_attempt_never_aborts(s: SyncRunView, outcome: ProcessOutcomeView)
    requires
        !s.done(),
        s.launched,
    ensures
        ({
            let t = s.step(RunEventView::ProcessEnded { outcome }).0;
            &&& t.items == s.items.push(attempted_result(s.tool, s.current(), outcome))
            &&& t.items.last().label == s.current().label
            &&& t.items.last().ok == (outcome matches ProcessOutcomeView::Exited {
                success: true,
                ..
            })
            &&& t.units == s.units
            &&& t.awaited() == if s.items.len() + 1 < s.units.len() {
                RunStepView::Probe {
                    source: s.units[s.items.len() as int + 1].source,
                    kind: s.units[s.items.len() as int + 1].source_kind,
                }
            } else {
                RunStepView::Finish
            }
        }),
{
}

/// The tool is started for a unit only after its source was found, and then
/// with the arguments of that unit and the exact command line in the log.
pub proof fn lemma_found_source_is_executed(s: SyncRunView)
    requires
        !s.done(),
        !s.launched,
    ensures
        ({
            let (t, out) = s.step(RunEventView::SourceProbed { exists: true });
            &&& t.items == s.items
            &&& t.awaited() == RunStepView::Execute { args: s.current().args }
            &&& out.log_lines == seq![
                section_marker(s.current().label),
                command_line(s.current().args),
            ]
        }),
{
}

/// A run that is done and well formed has exactly one result for each unit,
/// in the order of the units and under their labels.
pub proof fn lemma_done_run_covers_units(s: SyncRunView)
    requires
        s.wf(),
        s.done(),
    ensures
        s.items.len() == s.units.len(),
        forall|i: int| 0 <= i < s.units.len() ==> (#[trigger] s.items[i]).label == s.units[i].label,
{
}

/// A run without units is done from the start, and its summary is a success
/// without results.
pub proof fn lemma_empty_run_succeeds(s: SyncRunView, ended_at_ms: u64)
    requires
        s.units.len() == 0,
        s.items.len() == 0,
    ensures
        s.awaited() == RunStepView::Finish,
        s.summary(ended_at_ms).ok,
        s.summary(ended_at_ms).items == Seq::<SyncItemResultView>::empty(),
{
    assert(s.items =~= Seq::<SyncItemResultView>::empty());
}

/// A configuration in which no project is enabled and both auxiliary
/// directories are switched off gives a run that is done from the start,
/// with a summary that is a success without results.
pub proof fn lemma_nothing_enabled_run_succeeds(
    cfg: AgentSyncConfigView,
    conf: Seq<char>,
    backup_root: Seq<char>,
    local: Option<LocalSourcesView>,
    s: SyncRunView,
    ended_at_ms: u64,
)
    requires
        forall|i: int| 0 <= i < cfg.projects.len() ==> !(#[trigger] cfg.projects[i]).enabled,
        !cfg.flags.sync_codex,
        !cfg.flags.sync_agents,
        planned_units(cfg, conf, backup_root, local) == Ok::<Seq<SyncUnitView>, Seq<char>>(s.units),
        s.items.len() == 0,
    ensures
        s.awaited() == RunStepView::Finish,
        s.summary(ended_at_ms).ok,
        s.summary(ended_at_ms).items == Seq::<SyncItemResultView>::empty(),
{
    lemma_nothing_enabled_plans_nothing(cfg, conf, backup_root, local);
    lemma_empty_run_succeeds(s, ended_at_ms);
}

/// The summary of a run is a failure exactly when one of its units is.
pub proof fn lemma_summary_ok_is_conjunction(s: SyncRunView, ended_at_ms: u64)
    ensures
        !s.summary(ended_at_ms).ok <==> exists|i: int|
            0 <= i < s.items.len() && !(#[trigger] s.items[i]).ok,
{
}


} // verus!
