use agentsync::config::{default_config, AgentSyncConfig};
use agentsync::rclone::{
    build_project_item_args, connection_test_commands, ensure_non_empty, first_file_path,
    make_common_args, rclone_config_file_name, rclone_config_text, rclone_executable_name,
    resolve_rclone, spawn_failure_text, test_connection, validate_basic, ProcessOutcome,
    ToolCandidate,
};

fn valid_config() -> AgentSyncConfig {
    let mut cfg = default_config();
    cfg.connection.host = "192.168.1.20".to_string();
    cfg.connection.user = "alice".to_string();
    cfg.connection.key_path = "C:\\Users\\alice\\.agentsync\\keys\\agentsync_ed25519".to_string();
    cfg
}

fn strings(items: &[&str]) -> Vec<String> {
    items.iter().map(|s| s.to_string()).collect()
}

fn exited(success: bool, stderr: &str) -> ProcessOutcome {
    ProcessOutcome::Exited {
        success,
        code: if success { Some(0) } else { Some(1) },
        stdout: String::new(),
        stderr: stderr.to_string(),
    }
}

#[test]
fn ensure_non_empty_rejects_blank_values() {
    assert_eq!(ensure_non_empty("Host", ""), Err("Host不能为空".to_string()));
    assert_eq!(ensure_non_empty("User", "  \t"), Err("User不能为空".to_string()));
    assert_eq!(ensure_non_empty("User", " bob "), Ok(()));
}

#[test]
fn validate_accepts_a_complete_configuration() {
    assert_eq!(validate_basic(&valid_config(), true), Ok(()));
}

#[test]
fn validate_reports_the_first_blank_field() {
    let mut cfg = valid_config();
    cfg.remote.backup_root = " ".to_string();
    assert_eq!(validate_basic(&cfg, true), Err("备份根目录不能为空".to_string()));
    cfg.remote.projects_root = "".to_string();
    assert_eq!(validate_basic(&cfg, true), Err("目标端项目根目录不能为空".to_string()));
    cfg.connection.key_path = "".to_string();
    assert_eq!(validate_basic(&cfg, false), Err("SSH 私钥路径不能为空".to_string()));
    cfg.connection.user = "".to_string();
    assert_eq!(validate_basic(&cfg, true), Err("User不能为空".to_string()));
    cfg.connection.host = "   ".to_string();
    assert_eq!(validate_basic(&cfg, true), Err("Host不能为空".to_string()));
}

#[test]
fn validate_requires_the_key_file() {
    let cfg = valid_config();
    assert_eq!(
        validate_basic(&cfg, false),
        Err("SSH 私钥文件不存在：C:\\Users\\alice\\.agentsync\\keys\\agentsync_ed25519".to_string())
    );
}

#[test]
fn default_configuration_does_not_validate() {
    assert_eq!(validate_basic(&default_config(), true), Err("Host不能为空".to_string()));
}

#[test]
fn executable_name_depends_on_the_platform() {
    assert_eq!(rclone_executable_name(true), "rclone.exe");
    assert_eq!(rclone_executable_name(false), "rclone");
}

#[test]
fn resolve_prefers_the_configured_path() {
    let mut cfg = valid_config();
    cfg.rclone_path = Some("/opt/rclone/rclone".to_string());
    let search = Some(vec![ToolCandidate { path: "/usr/bin/rclone".to_string(), is_file: true }]);
    assert_eq!(resolve_rclone(&cfg, true, &search), Ok("/opt/rclone/rclone".to_string()));
    assert_eq!(resolve_rclone(&cfg, true, &None), Ok("/opt/rclone/rclone".to_string()));
}

#[test]
fn resolve_falls_back_to_the_search_path() {
    let mut cfg = valid_config();
    let search = Some(vec![
        ToolCandidate { path: "/a/rclone".to_string(), is_file: false },
        ToolCandidate { path: "/b/rclone".to_string(), is_file: true },
        ToolCandidate { path: "/c/rclone".to_string(), is_file: true },
    ]);
    assert_eq!(resolve_rclone(&cfg, false, &search), Ok("/b/rclone".to_string()));
    cfg.rclone_path = Some("/missing/rclone".to_string());
    assert_eq!(resolve_rclone(&cfg, false, &search), Ok("/b/rclone".to_string()));
    cfg.rclone_path = Some("   ".to_string());
    assert_eq!(resolve_rclone(&cfg, true, &search), Ok("/b/rclone".to_string()));
}

#[test]
fn resolve_fails_when_the_tool_is_nowhere() {
    let cfg = valid_config();
    let search = Some(vec![ToolCandidate { path: "/a/rclone".to_string(), is_file: false }]);
    assert_eq!(
        resolve_rclone(&cfg, false, &search),
        Err("没找到 rclone：请先安装 rclone 并加入 PATH，或在连接设置里选择 rclone 可执行文件。".to_string())
    );
    assert_eq!(
        resolve_rclone(&cfg, false, &Some(vec![])),
        Err("没找到 rclone：请先安装 rclone 并加入 PATH，或在连接设置里选择 rclone 可执行文件。".to_string())
    );
    assert_eq!(
        resolve_rclone(&cfg, false, &None),
        Err("找不到 PATH 环境变量，无法定位 rclone".to_string())
    );
}

#[test]
fn first_file_path_takes_the_first_file() {
    assert_eq!(first_file_path(&vec![]), None);
    let candidates = vec![
        ToolCandidate { path: "x".to_string(), is_file: false },
        ToolCandidate { path: "y".to_string(), is_file: true },
    ];
    assert_eq!(first_file_path(&candidates), Some("y".to_string()));
}

#[test]
fn transport_file_is_named_by_the_id() {
    assert_eq!(rclone_config_file_name("0123abcd"), "agentsync-rclone-0123abcd.conf");
}

#[test]
fn transport_config_names_the_connection() {
    let mut cfg = valid_config();
    cfg.connection.host = "  192.168.1.20 ".to_string();
    cfg.connection.user = " alice ".to_string();
    cfg.connection.port = 2222;
    assert_eq!(
        rclone_config_text(&cfg),
        "[remote]\ntype = sftp\nhost = 192.168.1.20\nuser = alice\nport = 2222\nkey_file = C:/Users/alice/.agentsync/keys/agentsync_ed25519\n"
    );
}

#[test]
fn common_args_come_first() {
    assert_eq!(
        make_common_args("/tmp/r.conf"),
        strings(&["--config", "/tmp/r.conf", "--log-level", "INFO", "--stats-one-line"])
    );
}

#[test]
fn project_args_carry_backup_dir_and_excludes() {
    let mut cfg = valid_config();
    cfg.excludes = strings(&["node_modules/**", "   ", " dist/** ", ""]);
    let args = build_project_item_args(
        &cfg,
        "/tmp/r.conf",
        "sync",
        "/home/alice/work/app",
        "AgentSync/projects/app",
        "AgentSync/.agentsync-backup/abc/projects/app",
        true,
    );
    assert_eq!(
        args,
        strings(&[
            "--config",
            "/tmp/r.conf",
            "--log-level",
            "INFO",
            "--stats-one-line",
            "sync",
            "/home/alice/work/app",
            "remote:AgentSync/projects/app",
            "--backup-dir",
            "remote:AgentSync/.agentsync-backup/abc/projects/app",
            "--exclude",
            "node_modules/**",
            "--exclude",
            "dist/**",
        ])
    );
}

#[test]
fn auxiliary_args_carry_no_excludes() {
    let cfg = valid_config();
    let args =
        build_project_item_args(&cfg, "c", "copy", "/home/alice/.agents", ".agents", "b/agents", false);
    assert_eq!(
        args,
        strings(&[
            "--config",
            "c",
            "--log-level",
            "INFO",
            "--stats-one-line",
            "copy",
            "/home/alice/.agents",
            "remote:.agents",
            "--backup-dir",
            "remote:b/agents",
        ])
    );
}

#[test]
fn spawn_failure_names_the_tool_and_the_cause() {
    assert_eq!(
        spawn_failure_text("/usr/bin/rclone", "No such file or directory (os error 2)"),
        "执行 rclone 失败：/usr/bin/rclone（No such file or directory (os error 2)）"
    );
}

#[test]
fn connection_test_runs_three_commands() {
    let mut cfg = valid_config();
    cfg.remote.projects_root = "~/AgentSync/projects".to_string();
    cfg.remote.backup_root = " AgentSync\\backup ".to_string();
    assert_eq!(
        connection_test_commands(&cfg, "r.conf"),
        vec![
            strings(&["--config", "r.conf", "--log-level", "INFO", "--stats-one-line", "lsd", "remote:"]),
            strings(&[
                "--config",
                "r.conf",
                "--log-level",
                "INFO",
                "--stats-one-line",
                "mkdir",
                "remote:AgentSync/projects"
            ]),
            strings(&[
                "--config",
                "r.conf",
                "--log-level",
                "INFO",
                "--stats-one-line",
                "mkdir",
                "remote:AgentSync/backup"
            ]),
        ]
    );
}

#[test]
fn connection_test_asks_for_more_until_three_succeeded() {
    assert!(test_connection("rclone", &vec![]).is_none());
    assert!(test_connection("rclone", &vec![exited(true, "")]).is_none());
    assert!(test_connection("rclone", &vec![exited(true, ""), exited(true, "")]).is_none());
    let r = test_connection("rclone", &vec![exited(true, ""), exited(true, ""), exited(true, "")])
        .unwrap();
    assert!(r.ok);
    assert_eq!(r.message, "连接成功：能连上目标电脑。\n写入权限正常：目标端目录可创建/可写。");
}

#[test]
fn connection_test_stops_at_the_first_failure() {
    let r = test_connection("rclone", &vec![exited(false, "  ssh: handshake failed\n")]).unwrap();
    assert!(!r.ok);
    assert_eq!(r.message, "连接失败：ssh: handshake failed");

    let r = test_connection("rclone", &vec![exited(true, ""), exited(false, "denied\n")]).unwrap();
    assert!(!r.ok);
    assert_eq!(r.message, "目标端目录不可写（projects root）：denied");

    let r = test_connection(
        "rclone",
        &vec![exited(true, ""), exited(true, ""), exited(false, " read-only ")],
    )
    .unwrap();
    assert!(!r.ok);
    assert_eq!(r.message, "目标端目录不可写（backup root）：read-only");

    let r = test_connection(
        "rclone",
        &vec![exited(false, "first"), exited(false, "second"), exited(true, "")],
    )
    .unwrap();
    assert_eq!(r.message, "连接失败：first");
}

#[test]
fn connection_test_reports_a_process_that_did_not_start() {
    let outcomes =
        vec![exited(true, ""), ProcessOutcome::SpawnFailed { cause: "not found".to_string() }];
    let r = test_connection("/opt/rclone", &outcomes).unwrap();
    assert!(!r.ok);
    assert_eq!(r.message, "执行 rclone 失败：/opt/rclone（not found）");
}
