use agentsync::config::{default_config, AgentSyncConfig, ProjectItem};
use agentsync::rclone::ToolCandidate;
use agentsync::runs::{SyncItemResult, SyncRunSummary};
use agentsync::start::{finish_run, sync_start, validate_for_run, Preflight};
use agentsync::sync_manager::{start_run, SyncStatus};

fn config() -> AgentSyncConfig {
    let mut cfg = default_config();
    cfg.connection.host = "host".to_string();
    cfg.connection.user = "user".to_string();
    cfg.connection.key_path = "/keys/id".to_string();
    cfg.projects = vec![
        ProjectItem {
            id: "1".to_string(),
            name: "a".to_string(),
            local_path: "/work/a".to_string(),
            remote_dir_name: "a".to_string(),
            enabled: true,
        },
        ProjectItem {
            id: "2".to_string(),
            name: "b".to_string(),
            local_path: "/work/b".to_string(),
            remote_dir_name: "b".to_string(),
            enabled: false,
        },
    ];
    cfg
}

fn found() -> Preflight {
    Preflight {
        key_file_exists: true,
        configured_is_file: false,
        search: Some(vec![ToolCandidate { path: "/usr/bin/rclone".to_string(), is_file: true }]),
    }
}

fn snapshot(s: &SyncStatus) -> String {
    format!("{:?}", s)
}

#[test]
fn a_configuration_that_is_fit_clears_with_the_place_of_the_tool() {
    assert_eq!(validate_for_run(&config(), &found()), Ok("/usr/bin/rclone".to_string()));
}

#[test]
fn validation_comes_before_the_search_for_the_tool() {
    let mut cfg = config();
    cfg.connection.host = "".to_string();
    let nothing = Preflight { key_file_exists: true, configured_is_file: false, search: None };
    assert_eq!(validate_for_run(&cfg, &nothing), Err("Host不能为空".to_string()));
    assert_eq!(
        validate_for_run(&config(), &nothing),
        Err("找不到 PATH 环境变量，无法定位 rclone".to_string())
    );
    let no_key = Preflight { key_file_exists: false, configured_is_file: false, search: None };
    assert_eq!(validate_for_run(&config(), &no_key), Err("SSH 私钥文件不存在：/keys/id".to_string()));
}

#[test]
fn start_sets_up_the_slot_and_returns_the_name_of_the_run() {
    let mut slot = SyncStatus::idle();
    let r = sync_start(&mut slot, &config(), &found(), "run-1".to_string(), 42);
    assert_eq!(r, Ok("run-1".to_string()));
    assert!(slot.running);
    assert_eq!(slot.run_id.as_deref(), Some("run-1"));
    assert_eq!(slot.started_at_ms, Some(42));
    // One enabled project, the two units of the developer tool, the personal directory.
    assert_eq!(slot.total_items, 4);
    assert_eq!(slot.done_items, 0);
}

#[test]
fn start_that_is_refused_leaves_the_slot_untouched() {
    let mut slot = SyncStatus::idle();
    let before = snapshot(&slot);
    let mut cfg = config();
    cfg.connection.user = " ".to_string();
    assert_eq!(
        sync_start(&mut slot, &cfg, &found(), "run-1".to_string(), 42),
        Err("User不能为空".to_string())
    );
    assert_eq!(snapshot(&slot), before);

    let lost = Preflight { key_file_exists: true, configured_is_file: false, search: Some(vec![]) };
    assert!(sync_start(&mut slot, &config(), &lost, "run-1".to_string(), 42).is_err());
    assert_eq!(snapshot(&slot), before);
}

#[test]
fn start_while_a_run_is_in_flight_is_busy() {
    let mut slot = SyncStatus::idle();
    start_run(&mut slot, "run-0".to_string(), 1, 9).unwrap();
    let before = snapshot(&slot);
    assert_eq!(
        sync_start(&mut slot, &config(), &found(), "run-1".to_string(), 42),
        Err("已有同步任务在运行中，请稍后再试。".to_string())
    );
    assert_eq!(snapshot(&slot), before);
}

#[test]
fn a_configuration_that_is_unfit_is_reported_before_a_busy_slot() {
    let mut slot = SyncStatus::idle();
    start_run(&mut slot, "run-0".to_string(), 1, 9).unwrap();
    let mut cfg = config();
    cfg.remote.backup_root = "".to_string();
    assert_eq!(
        sync_start(&mut slot, &cfg, &found(), "run-1".to_string(), 42),
        Err("备份根目录不能为空".to_string())
    );
}

#[test]
fn finish_run_ends_the_run_with_its_summary_or_its_error() {
    let mut slot = SyncStatus::idle();
    sync_start(&mut slot, &config(), &found(), "run-1".to_string(), 42).unwrap();
    let summary = SyncRunSummary {
        run_id: "run-1".to_string(),
        started_at_ms: 42,
        ended_at_ms: 50,
        ok: false,
        backup_root: "b/run-1".to_string(),
        log_path: "/l/run-1.log".to_string(),
        items: vec![SyncItemResult {
            label: "项目: a".to_string(),
            ok: false,
            message: "失败（exit code Some(1)）".to_string(),
        }],
    };
    finish_run(&mut slot, "run-1".to_string(), Ok(summary), 99);
    assert!(!slot.running);
    assert_eq!(slot.ended_at_ms, Some(50));
    assert_eq!(slot.ok, Some(false));
    assert!(slot.error.is_none());
    assert!(slot.summary.is_some());

    let mut slot = SyncStatus::idle();
    sync_start(&mut slot, &config(), &found(), "run-2".to_string(), 42).unwrap();
    finish_run(&mut slot, "run-1".to_string(), Err("stale".to_string()), 60);
    assert!(slot.running);
    finish_run(&mut slot, "run-2".to_string(), Err("worker broke down".to_string()), 70);
    assert!(!slot.running);
    assert_eq!(slot.ended_at_ms, Some(70));
    assert_eq!(slot.error.as_deref(), Some("worker broke down"));
    assert!(slot.summary.is_none());
}
