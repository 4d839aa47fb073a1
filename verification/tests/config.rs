use agentsync::config::{
    agentsync_dir, agentsync_dir_in, agentsync_path_in, config_file, default_config,
    history_file, logs_dir,
};
use agentsync::runs::log_file_path;

#[test]
fn default_config_matches_a_fresh_installation() {
    let cfg = default_config();
    assert_eq!(cfg.schema_version, 1);
    assert_eq!(cfg.rclone_path, None);
    assert_eq!(cfg.connection.host, "");
    assert_eq!(cfg.connection.port, 22);
    assert_eq!(cfg.connection.user, "");
    assert_eq!(cfg.connection.key_path, "");
    assert_eq!(cfg.remote.projects_root, "AgentSync/projects");
    assert_eq!(cfg.remote.backup_root, "AgentSync/.agentsync-backup");
    assert!(cfg.flags.mirror_delete);
    assert!(cfg.flags.sync_codex);
    assert!(cfg.flags.sync_agents);
    assert_eq!(
        cfg.excludes,
        vec!["node_modules/**", "dist/**", "build/**", ".venv/**", ".git/**", ".DS_Store"]
    );
    assert!(cfg.projects.is_empty());
}

#[test]
fn clone_of_a_config_is_equal_in_every_field() {
    let mut cfg = default_config();
    cfg.rclone_path = Some("/usr/bin/rclone".to_string());
    cfg.connection.host = "h".to_string();
    let copy = cfg.clone();
    assert_eq!(format!("{:?}", copy), format!("{:?}", cfg));
}

#[test]
fn application_directory_needs_a_home_directory() {
    assert_eq!(
        agentsync_dir_in(None).err(),
        Some("找不到用户目录（home directory）".to_string())
    );
    let dir = agentsync_dir_in(Some("/home/u".to_string())).unwrap();
    assert_eq!(dir.base, "/home/u");
    assert_eq!(dir.names, vec![".agentsync"]);

    assert_eq!(
        agentsync_path_in(None, "logs").err(),
        Some("找不到用户目录（home directory）".to_string())
    );
    let logs = agentsync_path_in(Some("/home/u".to_string()), "logs").unwrap();
    assert_eq!(logs.base, "/home/u");
    assert_eq!(logs.names, vec![".agentsync", "logs"]);
}

#[test]
fn child_place_lies_one_level_below() {
    let dir = agentsync_dir_in(Some("C:\\Users\\u".to_string())).unwrap();
    let file = dir.child("config.json");
    assert_eq!(file.base, "C:\\Users\\u");
    assert_eq!(file.names, vec![".agentsync", "config.json"]);
    assert_eq!(dir.names, vec![".agentsync"]);
    let copy = file.clone();
    assert_eq!(copy.base, file.base);
    assert_eq!(copy.names, file.names);
}

#[test]
fn application_files_lie_in_the_application_directory() {
    match agentsync_dir() {
        Ok(dir) => {
            assert_eq!(dir.names, vec![".agentsync"]);
            let logs = logs_dir().unwrap();
            assert_eq!(logs.base, dir.base);
            assert_eq!(logs.names, vec![".agentsync", "logs"]);
            let history = history_file().unwrap();
            assert_eq!(history.base, dir.base);
            assert_eq!(history.names, vec![".agentsync", "history.jsonl"]);
            let config = config_file().unwrap();
            assert_eq!(config.base, dir.base);
            assert_eq!(config.names, vec![".agentsync", "config.json"]);
            let log = log_file_path("0123abcd").unwrap();
            assert_eq!(log.base, dir.base);
            assert_eq!(log.names, vec![".agentsync", "logs", "0123abcd.log"]);
            let other = log_file_path("ffff0000").unwrap();
            assert_eq!(other.names, vec![".agentsync", "logs", "ffff0000.log"]);
        }
        Err(e) => {
            assert_eq!(e, "找不到用户目录（home directory）");
            assert!(logs_dir().is_err());
            assert!(history_file().is_err());
            assert!(config_file().is_err());
            assert!(log_file_path("x").is_err());
        }
    }
}
