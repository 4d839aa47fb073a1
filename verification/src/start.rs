//! Starting a run, and ending it.
//!
//! A start is refused before anything is contacted if the configuration is
//! not fit for a run or the transfer tool is found nowhere, and it is
//! refused while another run is in flight. A start that is refused leaves
//! the status slot as it is and records no run.

use vstd::prelude::*;
use crate::config::{AgentSyncConfig, AgentSyncConfigView};
use crate::plan::{estimate_total_items, unit_count};
use crate::rclone::{
    opt_candidate_views, resolve_rclone, resolved_tool, validate_basic, validation_error,
    ToolCandidate, ToolCandidateView,
};
use crate::runs::{SyncRunSummary, SyncRunSummaryView};
use crate::sync_manager::{
    after_finish_err, after_finish_ok, busy_message, finish_err, finish_ok, fresh_status,
    start_run, SyncStatus, SyncStatusView,
};
use crate::text::text_result;

verus! {

/// What the caller found on disk before a run: whether the key file of the
/// configuration is a file, whether the configured place of the transfer
/// tool is a file, and the places of the tool on the search path, if the
/// platform has one.
#[derive(Debug)]
pub struct Preflight {
    pub key_file_exists: bool,
    pub configured_is_file: bool,
    pub search: Option<Vec<ToolCandidate>>,
}

/// What a [`Preflight`] holds.
pub struct PreflightView {
    pub key_file_exists: bool,
    pub configured_is_file: bool,
    pub search: Option<Seq<ToolCandidateView>>,
}

impl View for Preflight {
    type V = PreflightView;

    open spec fn view(&self) -> PreflightView {
        PreflightView {
            key_file_exists: self.key_file_exists,
            configured_is_file: self.configured_is_file,
            search: opt_candidate_views(self.search),
        }
    }
}

/// The transfer tool that a run of `cfg` will use, or why there can be no
/// run: the configuration is checked first, then the tool is looked for.
pub open spec fn cleared(cfg: AgentSyncConfigView, found: PreflightView) -> Result<
    Seq<char>,
    Seq<char>,
> {
    match validation_error(cfg, found.key_file_exists) {
        Some(message) => Err(message),
        None => resolved_tool(cfg, found.configured_is_file, found.search),
    }
}

/// Checks that a run of `cfg` can start, and returns the place of the
/// transfer tool.
pub fn validate_for_run(cfg: &AgentSyncConfig, found: &Preflight) -> (r: Result<String, String>)
    ensures
        text_result(r) == cleared(cfg@, found@),
{
    match validate_basic(cfg, found.key_file_exists) {
        Err(e) => Err(e),
        Ok(_) => resolve_rclone(cfg, found.configured_is_file, &found.search),
    }
}

/// The number of units that the status shows for a run of `cfg`.
pub open spec fn shown_total(cfg: AgentSyncConfigView) -> u32 {
    if unit_count(cfg) <= u32::MAX {
        unit_count(cfg) as u32
    } else {
        u32::MAX
    }
}

/// Why a start is refused, if it is: for the configuration, for the tool,
/// or because a run is in flight, in this order.
pub open spec fn start_refusal(cfg: AgentSyncConfigView, found: PreflightView, running: bool)
    -> Option<Seq<char>> {
    match cleared(cfg, found) {
        Err(message) => Some(message),
        Ok(_) => if running {
            Some(busy_message())
        } else {
            None
        },
    }
}

/// Starts the run `run_id` of `cfg` at `started_at_ms` and returns its name.
/// A start that is refused says why and leaves the slot untouched; else the
/// slot becomes the fresh state of the new run.
pub fn sync_start(
    slot: &mut SyncStatus,
    cfg: &AgentSyncConfig,
    found: &Preflight,
    run_id: String,
    started_at_ms: u64,
) -> (r: Result<String, String>)
    ensures
        match start_refusal(cfg@, found@, old(slot).running) {
            Some(message) => r is Err && r->Err_0@ == message && *final(slot) == *old(slot),
            None => r is Ok && r->Ok_0@ == run_id@ && final(slot)@ == fresh_status(
                run_id@,
                started_at_ms,
                shown_total(cfg@),
            ),
        },
{
    match validate_for_run(cfg, found) {
        Err(e) => {
            return Err(e);
        },
        Ok(_) => {},
    }
    let total = estimate_total_items(cfg);
    let name = run_id.clone();
    match start_run(slot, run_id, started_at_ms, total) {
        Err(e) => Err(e),
        Ok(_) => Ok(name),
    }
}

/// What the result of a run holds.
pub open spec fn run_result_view(r: Result<SyncRunSummary, String>) -> Result<
    SyncRunSummaryView,
    Seq<char>,
> {
    match r {
        Ok(s) => Ok(s@),
        Err(e) => Err(e@),
    }
}

/// The slot after the run `run_id` ended with `result` at `ended_at_ms`: a
/// summary always ends the run in the slot; an error ends it only if the
/// slot still tracks that run.
pub open spec fn after_run(
    s: SyncStatusView,
    run_id: Seq<char>,
    result: Result<SyncRunSummaryView, Seq<char>>,
    ended_at_ms: u64,
) -> SyncStatusView {
    match result {
        Ok(summary) => after_finish_ok(s, summary),
        Err(error) => after_finish_err(s, run_id, ended_at_ms, error),
    }
}

/// Ends the run `run_id` in the slot with its result: the summary, or the
/// error that stopped it, which includes a worker that broke down. Either
/// way a slot that tracks the run is no longer running afterwards.
pub fn finish_run(
    slot: &mut SyncStatus,
    run_id: String,
    result: Result<SyncRunSummary, String>,
    ended_at_ms: u64,
)
    ensures
        final(slot)@ == after_run(old(slot)@, run_id@, run_result_view(result), ended_at_ms),
        old(slot)@.run_id == Some(run_id@) ==> !final(slot).running,
{
    match result {
        Ok(summary) => finish_ok(slot, summary),
        Err(error) => finish_err(slot, run_id, ended_at_ms, error),
    }
}

} // verus!
