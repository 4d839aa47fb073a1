use agentsync::runs::{
    every_item_ok, history_entry, history_lines, list_runs, SyncItemResult, SyncRunSummary,
};

fn record(run_id: &str, started_at_ms: u64) -> SyncRunSummary {
    SyncRunSummary {
        run_id: run_id.to_string(),
        started_at_ms,
        ended_at_ms: started_at_ms + 10,
        ok: true,
        backup_root: format!("backup/{}", run_id),
        log_path: format!("/logs/{}.log", run_id),
        items: vec![SyncItemResult {
            label: "项目: a".to_string(),
            ok: true,
            message: "完成".to_string(),
        }],
    }
}

/// Reads one record the way the history stores it, for the few shapes that
/// these tests write.
fn parse(line: &str) -> Option<SyncRunSummary> {
    let value: serde_json::Value = serde_json::from_str(line).ok()?;
    let object = value.as_object()?;
    let mut items = Vec::new();
    for item in object.get("items")?.as_array()? {
        items.push(SyncItemResult {
            label: item.get("label")?.as_str()?.to_string(),
            ok: item.get("ok")?.as_bool()?,
            message: item.get("message")?.as_str()?.to_string(),
        });
    }
    Some(SyncRunSummary {
        run_id: object.get("runId")?.as_str()?.to_string(),
        started_at_ms: object.get("startedAtMs")?.as_u64()?,
        ended_at_ms: object.get("endedAtMs")?.as_u64()?,
        ok: object.get("ok")?.as_bool()?,
        backup_root: object.get("backupRoot")?.as_str()?.to_string(),
        log_path: object.get("logPath")?.as_str()?.to_string(),
        items,
    })
}

fn ids(records: &[SyncRunSummary]) -> Vec<&str> {
    records.iter().map(|r| r.run_id.as_str()).collect()
}

#[test]
fn history_lines_leave_out_blank_lines() {
    assert_eq!(history_lines(""), Vec::<String>::new());
    assert_eq!(history_lines("\n\n  \n"), Vec::<String>::new());
    assert_eq!(history_lines("a\n\nb\n"), vec!["a", "b"]);
    assert_eq!(history_lines("a\r\n \t\r\nb"), vec!["a\r", "b"]);
    assert_eq!(history_lines("only"), vec!["only"]);
}

#[test]
fn history_with_a_malformed_line_lists_the_valid_records_newest_first() {
    let text = "{\"runId\":\"old\",\"startedAtMs\":1000,\"endedAtMs\":1500,\"ok\":true,\"backupRoot\":\"b/old\",\"logPath\":\"/l/old.log\",\"items\":[{\"label\":\"项目: a\",\"ok\":true,\"message\":\"完成\"}]}\n\
{\"runId\":\"broken\",\"startedAtMs\":\n\
{\"runId\":\"new\",\"startedAtMs\":2000,\"endedAtMs\":2600,\"ok\":false,\"backupRoot\":\"b/new\",\"logPath\":\"/l/new.log\",\"items\":[]}\n";
    let lines = history_lines(text);
    assert_eq!(lines.len(), 3);
    let parsed: Vec<Option<SyncRunSummary>> = lines.iter().map(|l| parse(l)).collect();
    assert!(parsed[1].is_none());
    let runs = list_runs(&parsed);
    assert_eq!(runs.len(), 2);
    assert_eq!(ids(&runs), vec!["new", "old"]);
    assert_eq!(runs[0].started_at_ms, 2000);
    assert!(!runs[0].ok);
    assert_eq!(runs[1].started_at_ms, 1000);
    assert_eq!(runs[1].items.len(), 1);
    assert_eq!(runs[1].items[0].label, "项目: a");
}

#[test]
fn list_runs_of_nothing_is_empty() {
    assert!(list_runs(&vec![]).is_empty());
    assert!(list_runs(&vec![None, None]).is_empty());
}

#[test]
fn list_runs_sorts_descending_by_start() {
    let parsed = vec![
        Some(record("c", 30)),
        Some(record("a", 10)),
        None,
        Some(record("e", 50)),
        Some(record("b", 20)),
        Some(record("d", 40)),
    ];
    assert_eq!(ids(&list_runs(&parsed)), vec!["e", "d", "c", "b", "a"]);
}

#[test]
fn list_runs_keeps_the_order_of_records_that_started_together() {
    let parsed = vec![
        Some(record("first", 10)),
        Some(record("late", 99)),
        Some(record("second", 10)),
        Some(record("third", 10)),
        Some(record("early", 1)),
    ];
    assert_eq!(ids(&list_runs(&parsed)), vec!["late", "first", "second", "third", "early"]);
}

#[test]
fn every_item_ok_is_the_conjunction() {
    let ok = SyncItemResult { label: "a".to_string(), ok: true, message: "".to_string() };
    let bad = SyncItemResult { label: "b".to_string(), ok: false, message: "".to_string() };
    assert!(every_item_ok(&vec![]));
    assert!(every_item_ok(&vec![ok.clone(), ok.clone()]));
    assert!(!every_item_ok(&vec![ok.clone(), bad.clone()]));
    assert!(!every_item_ok(&vec![bad, ok]));
}

#[test]
fn appended_record_is_read_back_as_the_last_line() {
    assert_eq!(history_entry("{\"runId\":\"a\"}"), "{\"runId\":\"a\"}\n");
    let mut history = String::new();
    history.push_str(&history_entry("first"));
    assert_eq!(history_lines(&history), vec!["first"]);
    history.push_str(&history_entry("second"));
    history.push_str(&history_entry("third"));
    assert_eq!(history_lines(&history), vec!["first", "second", "third"]);
}
