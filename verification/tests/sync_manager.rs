use agentsync::engine::{report, ProgressNote};
use agentsync::runs::{SyncItemResult, SyncRunSummary};
use agentsync::sync_manager::{
    finish_err, finish_ok, get_status, observe, push_item_result, push_line, set_current_label,
    start_run, SyncStatus, LAST_LINE_LIMIT,
};

fn item(label: &str, ok: bool) -> SyncItemResult {
    SyncItemResult { label: label.to_string(), ok, message: "m".to_string() }
}

fn summary(run_id: &str, ok: bool, ended_at_ms: u64) -> SyncRunSummary {
    SyncRunSummary {
        run_id: run_id.to_string(),
        started_at_ms: 1,
        ended_at_ms,
        ok,
        backup_root: "backup/".to_string() + run_id,
        log_path: "/tmp/x.log".to_string(),
        items: vec![item("a", ok)],
    }
}

fn snapshot(s: &SyncStatus) -> String {
    format!("{:?}", s)
}

#[test]
fn idle_slot_is_empty() {
    let s = SyncStatus::idle();
    assert!(!s.running);
    assert_eq!(s.run_id, None);
    assert_eq!(s.started_at_ms, None);
    assert_eq!(s.ended_at_ms, None);
    assert_eq!(s.ok, None);
    assert_eq!(s.total_items, 0);
    assert_eq!(s.done_items, 0);
    assert_eq!(s.current_label, None);
    assert_eq!(s.last_line, None);
    assert_eq!(s.error, None);
    assert!(s.items.is_empty());
    assert!(s.summary.is_none());
}

#[test]
fn start_replaces_the_whole_slot() {
    let mut s = SyncStatus::idle();
    assert!(start_run(&mut s, "run-a".to_string(), 100, 2).is_ok());
    push_item_result(&mut s, item("a", false));
    push_line(&mut s, "line".to_string());
    finish_err(&mut s, "run-a".to_string(), 200, "boom".to_string());
    assert_eq!(s.error.as_deref(), Some("boom"));

    assert!(start_run(&mut s, "run-b".to_string(), 300, 7).is_ok());
    assert!(s.running);
    assert_eq!(s.run_id.as_deref(), Some("run-b"));
    assert_eq!(s.started_at_ms, Some(300));
    assert_eq!(s.ended_at_ms, None);
    assert_eq!(s.ok, None);
    assert_eq!(s.total_items, 7);
    assert_eq!(s.done_items, 0);
    assert_eq!(s.current_label.as_deref(), Some("准备中…"));
    assert_eq!(s.last_line, None);
    assert_eq!(s.error, None);
    assert!(s.items.is_empty());
    assert!(s.summary.is_none());
}

#[test]
fn start_while_running_is_busy_and_leaves_the_slot_unchanged() {
    let mut s = SyncStatus::idle();
    start_run(&mut s, "run-a".to_string(), 100, 2).unwrap();
    set_current_label(&mut s, "项目: x".to_string());
    push_line(&mut s, "copied 3 files".to_string());
    push_item_result(&mut s, item("a", true));
    let before = snapshot(&s);

    let r = start_run(&mut s, "run-b".to_string(), 999, 9);
    assert_eq!(r, Err("已有同步任务在运行中，请稍后再试。".to_string()));
    assert_eq!(snapshot(&s), before);
    assert_eq!(s.run_id.as_deref(), Some("run-a"));
}

#[test]
fn finish_err_of_another_run_is_ignored() {
    let mut s = SyncStatus::idle();
    start_run(&mut s, "run-a".to_string(), 100, 2).unwrap();
    let before = snapshot(&s);
    finish_err(&mut s, "run-b".to_string(), 500, "late failure".to_string());
    assert_eq!(snapshot(&s), before);
    assert!(s.running);

    finish_err(&mut s, "run-a".to_string(), 600, "real failure".to_string());
    assert!(!s.running);
    assert_eq!(s.ended_at_ms, Some(600));
    assert_eq!(s.ok, Some(false));
    assert_eq!(s.error.as_deref(), Some("real failure"));
    assert!(s.summary.is_none());
}

#[test]
fn finish_err_on_an_idle_slot_is_ignored() {
    let mut s = SyncStatus::idle();
    let before = snapshot(&s);
    finish_err(&mut s, "run-a".to_string(), 1, "e".to_string());
    assert_eq!(snapshot(&s), before);
}

#[test]
fn finish_ok_stores_the_summary() {
    let mut s = SyncStatus::idle();
    start_run(&mut s, "run-a".to_string(), 100, 1).unwrap();
    finish_ok(&mut s, summary("run-a", true, 250));
    assert!(!s.running);
    assert_eq!(s.ended_at_ms, Some(250));
    assert_eq!(s.ok, Some(true));
    assert_eq!(s.error, None);
    let kept = s.summary.as_ref().unwrap();
    assert_eq!(kept.run_id, "run-a");
    assert_eq!(kept.items.len(), 1);
}

#[test]
fn finish_ok_applies_whatever_run_the_slot_tracks() {
    let mut s = SyncStatus::idle();
    start_run(&mut s, "run-a".to_string(), 100, 1).unwrap();
    finish_ok(&mut s, summary("run-other", false, 300));
    assert!(!s.running);
    assert_eq!(s.ok, Some(false));
    assert_eq!(s.run_id.as_deref(), Some("run-a"));
    assert_eq!(s.summary.as_ref().unwrap().run_id, "run-other");
}

#[test]
fn done_items_never_decrease() {
    let mut s = SyncStatus::idle();
    start_run(&mut s, "run-a".to_string(), 100, 3).unwrap();
    let mut last = s.done_items;
    for i in 0..5 {
        push_item_result(&mut s, item("u", i % 2 == 0));
        assert!(s.done_items >= last);
        assert_eq!(s.done_items, last + 1);
        last = s.done_items;
    }
    assert_eq!(s.items.len(), 5);
    assert_eq!(s.done_items, 5);
}

#[test]
fn done_items_stop_at_the_largest_count() {
    let mut s = SyncStatus::idle();
    start_run(&mut s, "run-a".to_string(), 100, 3).unwrap();
    s.done_items = u32::MAX - 1;
    push_item_result(&mut s, item("u", true));
    assert_eq!(s.done_items, u32::MAX);
    push_item_result(&mut s, item("u", true));
    assert_eq!(s.done_items, u32::MAX);
}

#[test]
fn progress_without_a_run_is_a_no_op() {
    let mut s = SyncStatus::idle();
    let before = snapshot(&s);
    set_current_label(&mut s, "x".to_string());
    push_line(&mut s, "y".to_string());
    push_item_result(&mut s, item("z", true));
    assert_eq!(snapshot(&s), before);

    start_run(&mut s, "run-a".to_string(), 1, 1).unwrap();
    finish_ok(&mut s, summary("run-a", true, 2));
    let stopped = snapshot(&s);
    set_current_label(&mut s, "late".to_string());
    push_line(&mut s, "late".to_string());
    push_item_result(&mut s, item("late", false));
    assert_eq!(snapshot(&s), stopped);
}

#[test]
fn set_current_label_shows_the_label() {
    let mut s = SyncStatus::idle();
    start_run(&mut s, "run-a".to_string(), 1, 1).unwrap();
    set_current_label(&mut s, "Codex: sessions".to_string());
    assert_eq!(s.current_label.as_deref(), Some("Codex: sessions"));
}

#[test]
fn push_line_trims_and_drops_blank_lines() {
    let mut s = SyncStatus::idle();
    start_run(&mut s, "run-a".to_string(), 1, 1).unwrap();
    push_line(&mut s, "  transferred: 1 / 1  \n".to_string());
    assert_eq!(s.last_line.as_deref(), Some("transferred: 1 / 1"));
    push_line(&mut s, "   \t ".to_string());
    assert_eq!(s.last_line.as_deref(), Some("transferred: 1 / 1"));
    push_line(&mut s, "".to_string());
    assert_eq!(s.last_line.as_deref(), Some("transferred: 1 / 1"));
}

#[test]
fn push_line_cuts_long_lines_to_the_limit() {
    assert_eq!(LAST_LINE_LIMIT, 260);
    let mut s = SyncStatus::idle();
    start_run(&mut s, "run-a".to_string(), 1, 1).unwrap();
    push_line(&mut s, "x".repeat(260));
    assert_eq!(s.last_line.as_ref().unwrap().len(), 260);
    push_line(&mut s, "y".repeat(261));
    assert_eq!(s.last_line.as_deref(), Some("y".repeat(260).as_str()));
    push_line(&mut s, format!("  {}  ", "z".repeat(500)));
    assert_eq!(s.last_line.as_deref(), Some("z".repeat(260).as_str()));
}

#[test]
fn push_line_never_cuts_inside_a_character() {
    let mut s = SyncStatus::idle();
    start_run(&mut s, "run-a".to_string(), 1, 1).unwrap();
    // 87 characters of three bytes each take 261 bytes: one too many.
    push_line(&mut s, "界".repeat(87));
    assert_eq!(s.last_line.as_deref(), Some("界".repeat(86).as_str()));
    push_line(&mut s, format!("ab{}", "界".repeat(100)));
    assert_eq!(s.last_line.as_deref(), Some(format!("ab{}", "界".repeat(86)).as_str()));
}

#[test]
fn get_status_is_an_independent_copy() {
    let mut s = SyncStatus::idle();
    start_run(&mut s, "run-a".to_string(), 1, 4).unwrap();
    push_item_result(&mut s, item("a", true));
    push_line(&mut s, "l".to_string());
    let copy = get_status(&s);
    assert_eq!(snapshot(&copy), snapshot(&s));
    push_item_result(&mut s, item("b", false));
    assert_eq!(copy.items.len(), 1);
    assert_eq!(copy.done_items, 1);
    assert_eq!(s.items.len(), 2);
    finish_ok(&mut s, summary("run-a", false, 9));
    let done = get_status(&s);
    assert_eq!(snapshot(&done), snapshot(&s));
}

#[test]
fn observe_applies_notes_in_order() {
    let mut s = SyncStatus::idle();
    start_run(&mut s, "run-a".to_string(), 1, 2).unwrap();
    let notes = vec![
        ProgressNote::ItemStart { label: "项目: a".to_string() },
        ProgressNote::Line { text: "first".to_string() },
        ProgressNote::Line { text: "   ".to_string() },
        ProgressNote::Line { text: " second ".to_string() },
        ProgressNote::ItemDone { result: item("项目: a", true) },
    ];
    observe(&mut s, &notes);
    assert_eq!(s.current_label.as_deref(), Some("项目: a"));
    assert_eq!(s.last_line.as_deref(), Some("second"));
    assert_eq!(s.done_items, 1);
    assert_eq!(s.items.len(), 1);
    assert_eq!(s.items[0].label, "项目: a");
}

#[test]
fn report_reaches_the_slot_through_the_observer_interface() {
    let mut direct = SyncStatus::idle();
    let mut through = SyncStatus::idle();
    start_run(&mut direct, "run-a".to_string(), 1, 2).unwrap();
    start_run(&mut through, "run-a".to_string(), 1, 2).unwrap();
    let notes = vec![
        ProgressNote::ItemStart { label: "u".to_string() },
        ProgressNote::Line { text: "out".to_string() },
        ProgressNote::ItemDone { result: item("u", false) },
    ];
    observe(&mut direct, &notes);
    report(&notes, &mut through);
    assert_eq!(snapshot(&direct), snapshot(&through));
    assert_eq!(through.done_items, 1);
}
