use agentsync::config::{default_config, AgentSyncConfig, ProjectItem};
use agentsync::plan::{
    agents_dir, codex_paths, estimate_total_items, local_home_dir, local_home_dir_in,
    local_sources, local_sources_in, new_run_id, plan_units, project_label, run_backup_root,
    LocalSources, SourceKind,
};

fn project(name: &str, enabled: bool) -> ProjectItem {
    ProjectItem {
        id: format!("id-{}", name),
        name: name.to_string(),
        local_path: format!("/work/{}", name),
        remote_dir_name: name.to_string(),
        enabled,
    }
}

fn config(projects: Vec<ProjectItem>, codex: bool, agents: bool, mirror: bool) -> AgentSyncConfig {
    let mut cfg = default_config();
    cfg.connection.host = "host".to_string();
    cfg.connection.user = "user".to_string();
    cfg.connection.key_path = "/keys/id".to_string();
    cfg.remote.projects_root = "~/AgentSync/projects/".to_string();
    cfg.remote.backup_root = "AgentSync/.agentsync-backup".to_string();
    cfg.flags.sync_codex = codex;
    cfg.flags.sync_agents = agents;
    cfg.flags.mirror_delete = mirror;
    cfg.excludes = vec![".git/**".to_string()];
    cfg.projects = projects;
    cfg
}

fn local() -> Option<LocalSources> {
    Some(LocalSources {
        codex_config: "/home/u/.codex/config.toml".to_string(),
        codex_sessions: "/home/u/.codex/sessions".to_string(),
        agents_dir: "/home/u/.agents".to_string(),
    })
}

fn strings(items: &[&str]) -> Vec<String> {
    items.iter().map(|s| s.to_string()).collect()
}

#[test]
fn run_id_is_thirty_two_lower_case_hex_digits() {
    let id = new_run_id();
    assert_eq!(id.len(), 32);
    assert!(id.chars().all(|c| c.is_ascii_digit() || ('a'..='f').contains(&c)));
    assert_ne!(new_run_id(), id);
}

#[test]
fn backup_root_of_a_run_is_below_the_configured_root() {
    let cfg = config(vec![], false, false, true);
    assert_eq!(
        run_backup_root(&cfg, "0123456789abcdef0123456789abcdef"),
        "AgentSync/.agentsync-backup/0123456789abcdef0123456789abcdef"
    );
    let mut home = config(vec![], false, false, true);
    home.remote.backup_root = "~".to_string();
    assert_eq!(run_backup_root(&home, "abc"), "abc");
}

#[test]
fn project_label_names_the_project() {
    assert_eq!(project_label(&project("site", true)), "项目: site");
}

#[test]
fn nothing_enabled_plans_nothing() {
    let cfg = config(vec![project("a", false), project("b", false)], false, false, true);
    let units = plan_units(&cfg, "r.conf", "backup/run", &None).unwrap();
    assert!(units.is_empty());
    assert_eq!(estimate_total_items(&cfg), 0);
}

#[test]
fn enabled_projects_are_planned_in_order() {
    let cfg = config(
        vec![project("a", true), project("b", false), project("c", true)],
        false,
        false,
        true,
    );
    let units = plan_units(&cfg, "r.conf", "backup/run", &None).unwrap();
    assert_eq!(units.len(), 2);
    assert_eq!(estimate_total_items(&cfg), 2);
    assert_eq!(units[0].label, "项目: a");
    assert_eq!(units[1].label, "项目: c");
    assert_eq!(units[0].source, "/work/a");
    assert_eq!(units[0].source_kind, SourceKind::Directory);
    assert_eq!(units[0].skip_message, "本机未找到项目目录，已跳过");
    assert_eq!(
        units[0].args,
        strings(&[
            "--config",
            "r.conf",
            "--log-level",
            "INFO",
            "--stats-one-line",
            "sync",
            "/work/a",
            "remote:AgentSync/projects/a",
            "--backup-dir",
            "remote:backup/run/projects/a",
            "--exclude",
            ".git/**",
        ])
    );
    assert_eq!(units[1].args[7], "remote:AgentSync/projects/c");
    assert_eq!(units[1].args[9], "remote:backup/run/projects/c");
}

#[test]
fn copy_mode_is_used_without_mirror_delete() {
    let cfg = config(vec![project("a", true)], false, true, false);
    let units = plan_units(&cfg, "r.conf", "backup/run", &local()).unwrap();
    assert_eq!(units[0].args[5], "copy");
    assert_eq!(units[1].args[5], "copy");
}

#[test]
fn auxiliary_units_follow_the_projects() {
    let cfg = config(vec![project("a", true)], true, true, true);
    let units = plan_units(&cfg, "r.conf", "backup/run", &local()).unwrap();
    assert_eq!(estimate_total_items(&cfg), 4);
    let labels: Vec<&str> = units.iter().map(|u| u.label.as_str()).collect();
    assert_eq!(labels, vec!["项目: a", "Codex: sessions", "Codex: config.toml", ".agents"]);

    assert_eq!(units[1].source, "/home/u/.codex/sessions");
    assert_eq!(units[1].source_kind, SourceKind::Directory);
    assert_eq!(units[1].skip_message, "本机未找到 .codex/sessions，已跳过");
    assert_eq!(
        units[1].args,
        strings(&[
            "--config",
            "r.conf",
            "--log-level",
            "INFO",
            "--stats-one-line",
            "sync",
            "/home/u/.codex/sessions",
            "remote:.codex/sessions",
            "--backup-dir",
            "remote:backup/run/codex/sessions",
        ])
    );

    assert_eq!(units[2].source, "/home/u/.codex/config.toml");
    assert_eq!(units[2].source_kind, SourceKind::File);
    assert_eq!(units[2].skip_message, "本机未找到 .codex/config.toml，已跳过");
    assert_eq!(
        units[2].args,
        strings(&[
            "--config",
            "r.conf",
            "--log-level",
            "INFO",
            "--stats-one-line",
            "copyto",
            "/home/u/.codex/config.toml",
            "remote:.codex/config.toml",
            "--backup-dir",
            "remote:backup/run/codex/config",
        ])
    );

    assert_eq!(units[3].source, "/home/u/.agents");
    assert_eq!(units[3].skip_message, "本机未找到 ~/.agents，已跳过");
    assert_eq!(
        units[3].args,
        strings(&[
            "--config",
            "r.conf",
            "--log-level",
            "INFO",
            "--stats-one-line",
            "sync",
            "/home/u/.agents",
            "remote:.agents",
            "--backup-dir",
            "remote:backup/run/agents",
        ])
    );
}

#[test]
fn config_file_is_copied_as_one_file_whatever_the_mode() {
    let cfg = config(vec![], true, false, false);
    let units = plan_units(&cfg, "r.conf", "b", &local()).unwrap();
    assert_eq!(units.len(), 2);
    assert_eq!(units[0].args[5], "copy");
    assert_eq!(units[1].args[5], "copyto");
}

#[test]
fn every_planned_unit_has_a_backup_dir_below_the_run_root() {
    let cfg = config(vec![project("a", true), project("b", true)], true, true, true);
    let units = plan_units(&cfg, "r.conf", "backup/run", &local()).unwrap();
    assert_eq!(units.len(), 5);
    for unit in &units {
        assert_eq!(unit.args[8], "--backup-dir");
        assert!(unit.args[9].starts_with("remote:backup/run/"), "{}", unit.args[9]);
    }
}

#[test]
fn auxiliary_units_need_the_home_directory() {
    let cfg = config(vec![project("a", true)], true, false, true);
    assert_eq!(
        plan_units(&cfg, "r.conf", "b", &None).err(),
        Some("找不到本机用户目录（home directory）".to_string())
    );
    let cfg = config(vec![], false, true, true);
    assert_eq!(
        plan_units(&cfg, "r.conf", "b", &None).err(),
        Some("找不到本机用户目录（home directory）".to_string())
    );
}

#[test]
fn local_places_lie_in_the_home_directory() {
    match local_home_dir() {
        Ok(home) => {
            let (config, sessions) = codex_paths().unwrap();
            assert_eq!(config.base, home);
            assert_eq!(config.names, vec![".codex", "config.toml"]);
            assert_eq!(sessions.base, home);
            assert_eq!(sessions.names, vec![".codex", "sessions"]);
            let agents = agents_dir().unwrap();
            assert_eq!(agents.base, home);
            assert_eq!(agents.names, vec![".agents"]);
            let all = local_sources().unwrap();
            assert_eq!(all.codex_config.base, home);
            assert_eq!(all.codex_config.names, config.names);
            assert_eq!(all.codex_sessions.names, sessions.names);
            assert_eq!(all.agents_dir.names, agents.names);
        }
        Err(e) => {
            assert_eq!(e, "找不到本机用户目录（home directory）");
            assert_eq!(codex_paths().err(), Some(e.clone()));
            assert_eq!(agents_dir().err(), Some(e));
            assert!(local_sources().is_none());
        }
    }
}

#[test]
fn local_places_are_there_exactly_with_a_home_directory() {
    assert!(local_sources_in(None).is_none());
    let places = local_sources_in(Some("/home/u".to_string())).unwrap();
    assert_eq!(places.codex_config.base, "/home/u");
    assert_eq!(places.codex_config.names, vec![".codex", "config.toml"]);
    assert_eq!(places.codex_sessions.base, "/home/u");
    assert_eq!(places.codex_sessions.names, vec![".codex", "sessions"]);
    assert_eq!(places.agents_dir.base, "/home/u");
    assert_eq!(places.agents_dir.names, vec![".agents"]);
}

#[test]
fn home_directory_is_passed_on_or_reported_missing() {
    assert_eq!(local_home_dir_in(Some("/home/u".to_string())), Ok("/home/u".to_string()));
    assert_eq!(
        local_home_dir_in(None),
        Err("找不到本机用户目录（home directory）".to_string())
    );
}
