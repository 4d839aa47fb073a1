//! The configuration that a run consumes, and where the files of the
//! application live on the local machine.

use vstd::prelude::*;
use crate::text::{clone_opt_text, clone_texts, opt_text, texts};

verus! {

/// One local directory that takes part in a run when it is enabled.
#[derive(Debug)]
pub struct ProjectItem {
    pub id: String,
    pub name: String,
    pub local_path: String,
    pub remote_dir_name: String,
    pub enabled: bool,
}

/// What a [`ProjectItem`] holds.
pub struct ProjectItemView {
    pub id: Seq<char>,
    pub name: Seq<char>,
    pub local_path: Seq<char>,
    pub remote_dir_name: Seq<char>,
    pub enabled: bool,
}

impl View for ProjectItem {
    type V = ProjectItemView;

    open spec fn view(&self) -> ProjectItemView {
        ProjectItemView {
            id: self.id@,
            name: self.name@,
            local_path: self.local_path@,
            remote_dir_name: self.remote_dir_name@,
            enabled: self.enabled,
        }
    }
}

impl Clone for ProjectItem {
    fn clone(&self) -> (r: Self)
        ensures
            r@ == self@,
    {
        ProjectItem {
            id: self.id.clone(),
            name: self.name.clone(),
            local_path: self.local_path.clone(),
            remote_dir_name: self.remote_dir_name.clone(),
            enabled: self.enabled,
        }
    }
}

/// How the remote host is reached.
#[derive(Debug)]
pub struct ConnectionConfig {
    pub host: String,
    pub port: u16,
    pub user: String,
    pub key_path: String,
}

/// What a [`ConnectionConfig`] holds.
pub struct ConnectionConfigView {
    pub host: Seq<char>,
    pub port: u16,
    pub user: Seq<char>,
    pub key_path: Seq<char>,
}

impl View for ConnectionConfig {
    type V = ConnectionConfigView;

    open spec fn view(&self) -> ConnectionConfigView {
        ConnectionConfigView {
            host: self.host@,
            port: self.port,
            user: self.user@,
            key_path: self.key_path@,
        }
    }
}

impl Clone for ConnectionConfig {
    fn clone(&self) -> (r: Self)
        ensures
            r@ == self@,
    {
        ConnectionConfig {
            host: self.host.clone(),
            port: self.port,
            user: self.user.clone(),
            key_path: self.key_path.clone(),
        }
    }
}

/// The two remote roots: where projects go, and where backups go.
#[derive(Debug)]
pub struct RemoteConfig {
    pub projects_root: String,
    pub backup_root: String,
}

/// What a [`RemoteConfig`] holds.
pub struct RemoteConfigView {
    pub projects_root: Seq<char>,
    pub backup_root: Seq<char>,
}

impl View for RemoteConfig {
    type V = RemoteConfigView;

    open spec fn view(&self) -> RemoteConfigView {
        RemoteConfigView { projects_root: self.projects_root@, backup_root: self.backup_root@ }
    }
}

impl Clone for RemoteConfig {
    fn clone(&self) -> (r: Self)
        ensures
            r@ == self@,
    {
        RemoteConfig {
            projects_root: self.projects_root.clone(),
            backup_root: self.backup_root.clone(),
        }
    }
}

/// The switches of a run.
#[derive(Debug, Clone, Copy, PartialEq, Eq, Structural)]
pub struct FlagsConfig {
    pub mirror_delete: bool,
    pub sync_codex: bool,
    pub sync_agents: bool,
}

/// The whole configuration, supplied once per run.
#[derive(Debug)]
pub struct AgentSyncConfig {
    pub schema_version: u32,
    pub rclone_path: Option<String>,
    pub connection: ConnectionConfig,
    pub remote: RemoteConfig,
    pub flags: FlagsConfig,
    pub excludes: Vec<String>,
    pub projects: Vec<ProjectItem>,
}

/// What an [`AgentSyncConfig`] holds.
pub struct AgentSyncConfigView {
    pub schema_version: u32,
    pub rclone_path: Option<Seq<char>>,
    pub connection: ConnectionConfigView,
    pub remote: RemoteConfigView,
    pub flags: FlagsConfig,
    pub excludes: Seq<Seq<char>>,
    pub projects: Seq<ProjectItemView>,
}

/// What a sequence of projects holds.
pub open spec fn project_views(projects: Seq<ProjectItem>) -> Seq<ProjectItemView> {
    Seq::new(projects.len(), |i: int| projects[i]@)
}

impl View for AgentSyncConfig {
    type V = AgentSyncConfigView;

    open spec fn view(&self) -> AgentSyncConfigView {
        AgentSyncConfigView {
            schema_version: self.schema_version,
            rclone_path: opt_text(self.rclone_path),
            connection: self.connection@,
            remote: self.remote@,
            flags: self.flags,
            excludes: texts(self.excludes@),
            projects: project_views(self.projects@),
        }
    }
}

/// A copy of each project of `v`, in order.
pub fn clone_projects(v: &Vec<ProjectItem>) -> (r: Vec<ProjectItem>)
    ensures
        project_views(r@) == project_views(v@),
{
    let mut r: Vec<ProjectItem> = Vec::new();
    let mut i: usize = 0;
    while i < v.len()
        invariant
            i <= v.len(),
            r@.len() == i,
            forall|j: int| 0 <= j < i ==> r@[j]@ == v@[j]@,
        decreases v.len() - i,
    {
        r.push(v[i].clone());
        i += 1;
    }
    assert(project_views(r@) =~= project_views(v@));
    r
}

impl Clone for AgentSyncConfig {
    fn clone(&self) -> (r: Self)
        ensures
            r@ == self@,
    {
        AgentSyncConfig {
            schema_version: self.schema_version,
            rclone_path: clone_opt_text(&self.rclone_path),
            connection: self.connection.clone(),
            remote: self.remote.clone(),
            flags: self.flags,
            excludes: clone_texts(&self.excludes),
            projects: clone_projects(&self.projects),
        }
    }
}

/// The configuration of a fresh installation.
pub open spec fn default_config_view() -> AgentSyncConfigView {
    AgentSyncConfigView {
        schema_version: 1,
        rclone_path: None,
        connection: ConnectionConfigView {
            host: Seq::empty(),
            port: 22,
            user: Seq::empty(),
            key_path: Seq::empty(),
        },
        remote: RemoteConfigView {
            projects_root: "AgentSync/projects"@,
            backup_root: "AgentSync/.agentsync-backup"@,
        },
        flags: FlagsConfig { mirror_delete: true, sync_codex: true, sync_agents: true },
        excludes: seq![
            "node_modules/**"@,
            "dist/**"@,
            "build/**"@,
            ".venv/**"@,
            ".git/**"@,
            ".DS_Store"@,
        ],
        projects: Seq::empty(),
    }
}

/// The configuration of a fresh installation: no connection yet, the default
/// remote roots, every switch on, the usual build directories excluded, and
/// no project.
pub fn default_config() -> (r: AgentSyncConfig)
    ensures
        r@ == default_config_view(),
{
    let mut excludes: Vec<String> = Vec::new();
    excludes.push("node_modules/**".to_string());
    excludes.push("dist/**".to_string());
    excludes.push("build/**".to_string());
    excludes.push(".venv/**".to_string());
    excludes.push(".git/**".to_string());
    excludes.push(".DS_Store".to_string());
    let r = AgentSyncConfig {
        schema_version: 1,
        rclone_path: None,
        connection: ConnectionConfig {
            host: String::new(),
            port: 22,
            user: String::new(),
            key_path: String::new(),
        },
        remote: RemoteConfig {
            projects_root: "AgentSync/projects".to_string(),
            backup_root: "AgentSync/.agentsync-backup".to_string(),
        },
        flags: FlagsConfig { mirror_delete: true, sync_codex: true, sync_agents: true },
        excludes,
        projects: Vec::new(),
    };
    proof {
        assert(r@.excludes =~= default_config_view().excludes);
        assert(r@.projects =~= default_config_view().projects);
    }
    r
}

/// The home directory of the user on this machine.
///
/// This is `dirs::home_dir`, with the path turned into text. What it returns
/// depends on the machine and its environment, so nothing is claimed of it:
/// the callers are verified for every value that may come back.
#[verifier::external_body]
pub(crate) fn home_dir_text() -> (r: Option<String>) {
    match dirs::home_dir() {
        Some(path) => Some(path.display().to_string()),
        None => None,
    }
}

/// A place on the local machine: a directory to start from, and the names
/// to follow from there, one level each. How the names are put together
/// into the text of a path is the platform's business, and is left to the
/// caller that opens the place.
#[derive(Debug)]
pub struct LocalPath {
    pub base: String,
    pub names: Vec<String>,
}

/// What a [`LocalPath`] holds.
pub struct LocalPathView {
    pub base: Seq<char>,
    pub names: Seq<Seq<char>>,
}

impl View for LocalPath {
    type V = LocalPathView;

    open spec fn view(&self) -> LocalPathView {
        LocalPathView { base: self.base@, names: texts(self.names@) }
    }
}

impl Clone for LocalPath {
    fn clone(&self) -> (r: Self)
        ensures
            r@ == self@,
    {
        LocalPath { base: self.base.clone(), names: clone_texts(&self.names) }
    }
}

impl LocalPath {
    /// The place `name` directly in this one.
    pub fn child(&self, name: &str) -> (r: LocalPath)
        ensures
            r@ == (LocalPathView { base: self@.base, names: self@.names.push(name@) }),
    {
        let mut names = clone_texts(&self.names);
        let ghost before = texts(names@);
        names.push(name.to_owned());
        assert(texts(names@) =~= before.push(name@));
        LocalPath { base: self.base.clone(), names }
    }
}

/// What the result of looking for a place holds.
pub open spec fn path_result(r: Result<LocalPath, String>) -> Result<LocalPathView, Seq<char>> {
    match r {
        Ok(p) => Ok(p@),
        Err(e) => Err(e@),
    }
}

/// The place that `names` lead to from the home directory `home`, or the
/// error `message` where there is no home directory.
pub open spec fn place_in_home(
    home: Option<Seq<char>>,
    names: Seq<Seq<char>>,
    message: Seq<char>,
) -> Result<LocalPathView, Seq<char>> {
    match home {
        Some(base) => Ok(LocalPathView { base, names }),
        None => Err(message),
    }
}

/// The message of the error that a machine without a home directory gets.
pub open spec fn home_missing_message() -> Seq<char> {
    "找不到用户目录（home directory）"@
}

/// The names that lead from the home directory to the directory of the
/// application.
pub open spec fn agentsync_dir_names() -> Seq<Seq<char>> {
    seq![".agentsync"@]
}

/// The directory of the application below `home`, or the error of a machine
/// without a home directory.
pub fn agentsync_dir_in(home: Option<String>) -> (r: Result<LocalPath, String>)
    ensures
        path_result(r) == place_in_home(
            opt_text(home),
            agentsync_dir_names(),
            home_missing_message(),
        ),
{
    match home {
        Some(base) => {
            let mut names: Vec<String> = Vec::new();
            names.push(".agentsync".to_string());
            assert(texts(names@) =~= agentsync_dir_names());
            Ok(LocalPath { base, names })
        },
        None => Err("找不到用户目录（home directory）".to_string()),
    }
}

/// The directory in which the application keeps its files: `.agentsync` in
/// the home directory of the user. Which directory that is, and whether
/// there is one, is for the machine to say.
pub fn agentsync_dir() -> (r: Result<LocalPath, String>)
    ensures
        r is Err ==> r->Err_0@ == home_missing_message(),
        r is Ok ==> r->Ok_0@.names == agentsync_dir_names(),
{
    agentsync_dir_in(home_dir_text())
}

/// The place called `name` in the directory of the application below
/// `home`, or the error of a machine without a home directory.
pub fn agentsync_path_in(home: Option<String>, name: &str) -> (r: Result<LocalPath, String>)
    ensures
        path_result(r) == place_in_home(
            opt_text(home),
            agentsync_dir_names().push(name@),
            home_missing_message(),
        ),
{
    match agentsync_dir_in(home) {
        Ok(dir) => Ok(dir.child(name)),
        Err(e) => Err(e),
    }
}

/// The directory that holds one log for each run: `logs` in the directory
/// of the application.
pub fn logs_dir() -> (r: Result<LocalPath, String>)
    ensures
        r is Err ==> r->Err_0@ == home_missing_message(),
        r is Ok ==> r->Ok_0@.names == agentsync_dir_names().push("logs"@),
{
    agentsync_path_in(home_dir_text(), "logs")
}

/// The file that holds the history of runs: `history.jsonl` in the
/// directory of the application.
pub fn history_file() -> (r: Result<LocalPath, String>)
    ensures
        r is Err ==> r->Err_0@ == home_missing_message(),
        r is Ok ==> r->Ok_0@.names == agentsync_dir_names().push("history.jsonl"@),
{
    agentsync_path_in(home_dir_text(), "history.jsonl")
}

/// The file that holds the configuration: `config.json` in the directory of
/// the application.
pub fn config_file() -> (r: Result<LocalPath, String>)
    ensures
        r is Err ==> r->Err_0@ == home_missing_message(),
        r is Ok ==> r->Ok_0@.names == agentsync_dir_names().push("config.json"@),
{
    agentsync_path_in(home_dir_text(), "config.json")
}

} // verus!
