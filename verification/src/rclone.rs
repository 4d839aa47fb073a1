//! The transfer tool: what must hold before it is called, where it is found,
//! what it is told about the connection, and how one invocation is built.

use vstd::prelude::*;
use crate::config::{AgentSyncConfig, AgentSyncConfigView, ConnectionConfigView};
use crate::remote_path::{forward_slashes, normalize, normalize_remote_path};
use crate::text::{
    blank, chars_of, concat2, concat3, decimal, is_blank, opt_text, push_char, push_decimal,
    text_result, texts, trim, trimmed,
};

verus! {

/// The message that rejects a blank value of the field called `label`.
pub open spec fn empty_field_message(label: Seq<char>) -> Seq<char> {
    label + "不能为空"@
}

/// The message that rejects a key file that is not there.
pub open spec fn missing_key_message(key_path: Seq<char>) -> Seq<char> {
    "SSH 私钥文件不存在："@ + key_path
}

/// Rejects a blank `value`, naming the field by `label`.
pub fn ensure_non_empty(label: &str, value: &str) -> (r: Result<(), String>)
    ensures
        is_blank(value@) ==> r is Err && r->Err_0@ == empty_field_message(label@),
        !is_blank(value@) ==> r is Ok,
{
    if blank(value) {
        return Err(concat2(label, "不能为空"));
    }
    Ok(())
}

/// Why a configuration cannot start a run, if it cannot: the first of the
/// host, the user, the key file path and the two remote roots that is blank,
/// or else a key file that does not exist.
pub open spec fn validation_error(cfg: AgentSyncConfigView, key_file_exists: bool) -> Option<
    Seq<char>,
> {
    if is_blank(cfg.connection.host) {
        Some(empty_field_message("Host"@))
    } else if is_blank(cfg.connection.user) {
        Some(empty_field_message("User"@))
    } else if is_blank(cfg.connection.key_path) {
        Some(empty_field_message("SSH 私钥路径"@))
    } else if is_blank(cfg.remote.projects_root) {
        Some(empty_field_message("目标端项目根目录"@))
    } else if is_blank(cfg.remote.backup_root) {
        Some(empty_field_message("备份根目录"@))
    } else if !key_file_exists {
        Some(missing_key_message(cfg.connection.key_path))
    } else {
        None
    }
}

/// Checks what must hold before any contact with the remote host.
/// `key_file_exists` says whether the key file of the configuration is a
/// file on disk.
pub fn validate_basic(cfg: &AgentSyncConfig, key_file_exists: bool) -> (r: Result<(), String>)
    ensures
        match validation_error(cfg@, key_file_exists) {
            Some(message) => r is Err && r->Err_0@ == message,
            None => r is Ok,
        },
{
    match ensure_non_empty("Host", cfg.connection.host.as_str()) {
        Err(e) => {
            return Err(e);
        },
        Ok(_) => {},
    }
    match ensure_non_empty("User", cfg.connection.user.as_str()) {
        Err(e) => {
            return Err(e);
        },
        Ok(_) => {},
    }
    match ensure_non_empty("SSH 私钥路径", cfg.connection.key_path.as_str()) {
        Err(e) => {
            return Err(e);
        },
        Ok(_) => {},
    }
    match ensure_non_empty("目标端项目根目录", cfg.remote.projects_root.as_str()) {
        Err(e) => {
            return Err(e);
        },
        Ok(_) => {},
    }
    match ensure_non_empty("备份根目录", cfg.remote.backup_root.as_str()) {
        Err(e) => {
            return Err(e);
        },
        Ok(_) => {},
    }
    if !key_file_exists {
        return Err(concat2("SSH 私钥文件不存在：", cfg.connection.key_path.as_str()));
    }
    Ok(())
}

/// One place where the tool may be, and whether a regular file is there.
#[derive(Debug)]
pub struct ToolCandidate {
    pub path: String,
    pub is_file: bool,
}

/// What a [`ToolCandidate`] holds.
pub struct ToolCandidateView {
    pub path: Seq<char>,
    pub is_file: bool,
}

impl View for ToolCandidate {
    type V = ToolCandidateView;

    open spec fn view(&self) -> ToolCandidateView {
        ToolCandidateView { path: self.path@, is_file: self.is_file }
    }
}

/// What a sequence of candidates holds.
pub open spec fn candidate_views(v: Seq<ToolCandidate>) -> Seq<ToolCandidateView> {
    Seq::new(v.len(), |i: int| v[i]@)
}

/// What an optional list of candidates holds.
pub open spec fn opt_candidate_views(o: Option<Vec<ToolCandidate>>) -> Option<
    Seq<ToolCandidateView>,
> {
    match o {
        Some(v) => Some(candidate_views(v@)),
        None => None,
    }
}

/// The name of the tool's executable on the platform.
pub open spec fn executable_name(windows: bool) -> Seq<char> {
    if windows {
        "rclone.exe"@
    } else {
        "rclone"@
    }
}

/// The name of the tool's executable on the platform.
pub fn rclone_executable_name(windows: bool) -> (r: String)
    ensures
        r@ == executable_name(windows),
{
    if windows {
        "rclone.exe".to_string()
    } else {
        "rclone".to_string()
    }
}

/// The message of a search that has no search path to go by.
pub open spec fn no_search_path_message() -> Seq<char> {
    "找不到 PATH 环境变量，无法定位 rclone"@
}

/// The message of a search that found the tool nowhere.
pub open spec fn tool_not_found_message() -> Seq<char> {
    "没找到 rclone：请先安装 rclone 并加入 PATH，或在连接设置里选择 rclone 可执行文件。"@
}

/// The first candidate at which a file is, if there is one.
pub open spec fn first_file(candidates: Seq<ToolCandidateView>) -> Option<Seq<char>>
    decreases candidates.len(),
{
    if candidates.len() == 0 {
        None
    } else if candidates[0].is_file {
        Some(candidates[0].path)
    } else {
        first_file(candidates.drop_first())
    }
}

/// Where the tool is: the configured path, where one is set, is not blank
/// and a file is there; else the first place on the search path at which a
/// file is. Without either the search fails, and says why.
pub open spec fn resolved_tool(
    cfg: AgentSyncConfigView,
    configured_is_file: bool,
    search: Option<Seq<ToolCandidateView>>,
) -> Result<Seq<char>, Seq<char>> {
    if cfg.rclone_path is Some && !is_blank(cfg.rclone_path->0) && configured_is_file {
        Ok(cfg.rclone_path->0)
    } else {
        match search {
            None => Err(no_search_path_message()),
            Some(candidates) => match first_file(candidates) {
                Some(path) => Ok(path),
                None => Err(tool_not_found_message()),
            },
        }
    }
}

/// The path of the first candidate at which a file is, if there is one.
pub fn first_file_path(candidates: &Vec<ToolCandidate>) -> (r: Option<String>)
    ensures
        opt_text(r) == first_file(candidate_views(candidates@)),
{
    let ghost all = candidate_views(candidates@);
    let mut i: usize = 0;
    assert(all.skip(0) =~= all);
    while i < candidates.len()
        invariant
            i <= candidates.len(),
            all == candidate_views(candidates@),
            first_file(all) == first_file(all.skip(i as int)),
        decreases candidates.len() - i,
    {
        proof {
            let rest = all.skip(i as int);
            assert(rest[0] == candidates@[i as int]@);
            assert(rest.drop_first() =~= all.skip(i + 1));
        }
        if candidates[i].is_file {
            return Some(candidates[i].path.clone());
        }
        i += 1;
    }
    None
}

/// Finds the tool. `configured_is_file` says whether a regular file is at
/// the configured path. `search` holds, for each directory of the search
/// path in order, the place of the executable in it; it is `None` where the
/// platform has no search path.
pub fn resolve_rclone(
    cfg: &AgentSyncConfig,
    configured_is_file: bool,
    search: &Option<Vec<ToolCandidate>>,
) -> (r: Result<String, String>)
    ensures
        text_result(r) == resolved_tool(cfg@, configured_is_file, opt_candidate_views(*search)),
{
    match &cfg.rclone_path {
        Some(p) => {
            if !blank(p.as_str()) && configured_is_file {
                return Ok(p.clone());
            }
        },
        None => {},
    }
    match search {
        None => Err("找不到 PATH 环境变量，无法定位 rclone".to_string()),
        Some(candidates) => match first_file_path(candidates) {
            Some(path) => Ok(path),
            None => Err(
                "没找到 rclone：请先安装 rclone 并加入 PATH，或在连接设置里选择 rclone 可执行文件。".to_string(),
            ),
        },
    }
}

/// The name of the file that holds the connection settings of the run
/// identified by `id`.
pub open spec fn transport_file_name(id: Seq<char>) -> Seq<char> {
    "agentsync-rclone-"@ + id + ".conf"@
}

/// The name of the file that holds the connection settings of the run
/// identified by `id`.
pub fn rclone_config_file_name(id: &str) -> (r: String)
    ensures
        r@ == transport_file_name(id@),
{
    concat3("agentsync-rclone-", id, ".conf")
}

/// The connection settings as the tool reads them: one remote called
/// `remote`, reached over SFTP with the key file.
pub open spec fn transport_config(c: ConnectionConfigView) -> Seq<char> {
    "[remote]\ntype = sftp\nhost = "@ + trim(c.host) + "\nuser = "@ + trim(c.user) + "\nport = "@
        + decimal(c.port as nat) + "\nkey_file = "@ + forward_slashes(c.key_path) + "\n"@
}

/// The text of the file that tells the tool how to reach the remote host.
pub fn rclone_config_text(cfg: &AgentSyncConfig) -> (r: String)
    ensures
        r@ == transport_config(cfg@.connection),
{
    let mut r = "[remote]\ntype = sftp\nhost = ".to_string();
    let host = trimmed(cfg.connection.host.as_str());
    r.append(host.as_str());
    r.append("\nuser = ");
    let user = trimmed(cfg.connection.user.as_str());
    r.append(user.as_str());
    r.append("\nport = ");
    push_decimal(&mut r, cfg.connection.port as u64);
    r.append("\nkey_file = ");
    let key = chars_of(cfg.connection.key_path.as_str());
    let ghost before = r@;
    let mut i: usize = 0;
    while i < key.len()
        invariant
            i <= key.len(),
            r@ == before + forward_slashes(key@).take(i as int),
        decreases key.len() - i,
    {
        let c = key[i];
        if c == '\\' {
            push_char(&mut r, '/');
        } else {
            push_char(&mut r, c);
        }
        proof {
            assert(forward_slashes(key@).take(i as int).push(forward_slashes(key@)[i as int])
                =~= forward_slashes(key@).take(i + 1));
        }
        i += 1;
    }
    proof {
        assert(forward_slashes(key@).take(key@.len() as int) =~= forward_slashes(key@));
    }
    r.append("\n");
    r
}

/// The arguments that every invocation starts with.
pub open spec fn common_args(conf: Seq<char>) -> Seq<Seq<char>> {
    seq!["--config"@, conf, "--log-level"@, "INFO"@, "--stats-one-line"@]
}

/// The arguments that every invocation starts with: the connection settings
/// in the file `rclone_conf`, the log level, and statistics on one line.
pub fn make_common_args(rclone_conf: &str) -> (r: Vec<String>)
    ensures
        texts(r@) == common_args(rclone_conf@),
{
    let mut r: Vec<String> = Vec::new();
    r.push("--config".to_string());
    r.push(rclone_conf.to_owned());
    r.push("--log-level".to_string());
    r.push("INFO".to_string());
    r.push("--stats-one-line".to_string());
    assert(texts(r@) =~= common_args(rclone_conf@));
    r
}

/// A place on the remote host, as the tool names it.
pub open spec fn remote_spec(path: Seq<char>) -> Seq<char> {
    "remote:"@ + path
}

/// The arguments that exclude the patterns of `excludes`: each pattern that
/// is not blank, trimmed, behind its own `--exclude`.
pub open spec fn exclude_args(excludes: Seq<Seq<char>>) -> Seq<Seq<char>>
    decreases excludes.len(),
{
    if excludes.len() == 0 {
        Seq::empty()
    } else if is_blank(excludes.last()) {
        exclude_args(excludes.drop_last())
    } else {
        exclude_args(excludes.drop_last()) + seq!["--exclude"@, trim(excludes.last())]
    }
}

/// The arguments of one transfer: the common ones, the transfer mode, the
/// local source, the remote destination, the backup directory, and the
/// exclusions if they apply.
pub open spec fn transfer_args(
    conf: Seq<char>,
    mode: Seq<char>,
    local_path: Seq<char>,
    remote_dest: Seq<char>,
    backup_dir: Seq<char>,
    excludes: Seq<Seq<char>>,
    use_excludes: bool,
) -> Seq<Seq<char>> {
    common_args(conf) + seq![
        mode,
        local_path,
        remote_spec(remote_dest),
        "--backup-dir"@,
        remote_spec(backup_dir),
    ] + (if use_excludes {
        exclude_args(excludes)
    } else {
        Seq::empty()
    })
}

/// Builds the arguments of one transfer. Whatever the transfer overwrites or
/// deletes on the remote side is moved to `backup_dir`. The exclusions of the
/// configuration are attached only where `use_excludes` says so.
pub fn build_project_item_args(
    cfg: &AgentSyncConfig,
    rclone_conf: &str,
    rclone_cmd: &str,
    local_path: &str,
    remote_dest: &str,
    backup_dir: &str,
    use_excludes: bool,
) -> (r: Vec<String>)
    ensures
        texts(r@) == transfer_args(
            rclone_conf@,
            rclone_cmd@,
            local_path@,
            remote_dest@,
            backup_dir@,
            cfg@.excludes,
            use_excludes,
        ),
{
    let mut args = make_common_args(rclone_conf);
    args.push(rclone_cmd.to_owned());
    args.push(local_path.to_owned());
    args.push(concat2("remote:", remote_dest));
    args.push("--backup-dir".to_string());
    args.push(concat2("remote:", backup_dir));
    let ghost fixed = common_args(rclone_conf@) + seq![
        rclone_cmd@,
        local_path@,
        remote_spec(remote_dest@),
        "--backup-dir"@,
        remote_spec(backup_dir@),
    ];
    assert(texts(args@) =~= fixed);
    if use_excludes {
        let ghost all = texts(cfg.excludes@);
        let mut i: usize = 0;
        while i < cfg.excludes.len()
            invariant
                i <= cfg.excludes.len(),
                all == texts(cfg.excludes@),
                texts(args@) == fixed + exclude_args(all.take(i as int)),
            decreases cfg.excludes.len() - i,
        {
            let ghost before = texts(args@);
            proof {
                assert(all.take(i + 1).drop_last() =~= all.take(i as int));
                assert(all.take(i + 1).last() == cfg.excludes@[i as int]@);
            }
            if !blank(cfg.excludes[i].as_str()) {
                args.push("--exclude".to_string());
                args.push(trimmed(cfg.excludes[i].as_str()));
                assert(texts(args@) =~= before + seq![
                    "--exclude"@,
                    trim(cfg.excludes@[i as int]@),
                ]);
            }
            assert(texts(args@) =~= fixed + exclude_args(all.take(i + 1)));
            i += 1;
        }
        assert(all.take(cfg.excludes@.len() as int) =~= all);
    } else {
        assert(texts(args@) =~= fixed + Seq::<Seq<char>>::empty());
    }
    args
}

/// How an attempt to run the tool ended.
#[derive(Debug)]
pub enum ProcessOutcome {
    /// The process could not be started.
    SpawnFailed { cause: String },
    /// The process ran and ended.
    Exited { success: bool, code: Option<i32>, stdout: String, stderr: String },
}

/// What a [`ProcessOutcome`] holds.
pub enum ProcessOutcomeView {
    SpawnFailed { cause: Seq<char> },
    Exited { success: bool, code: Option<i32>, stdout: Seq<char>, stderr: Seq<char> },
}

impl View for ProcessOutcome {
    type V = ProcessOutcomeView;

    open spec fn view(&self) -> ProcessOutcomeView {
        match *self {
            ProcessOutcome::SpawnFailed { cause } => ProcessOutcomeView::SpawnFailed {
                cause: cause@,
            },
            ProcessOutcome::Exited { success, code, stdout, stderr } => ProcessOutcomeView::Exited {
                success,
                code,
                stdout: stdout@,
                stderr: stderr@,
            },
        }
    }
}

/// The message of a unit whose process could not be started.
pub open spec fn spawn_failure_message(tool: Seq<char>, cause: Seq<char>) -> Seq<char> {
    "执行 rclone 失败："@ + tool + "（"@ + cause + "）"@
}

/// The message of a process that could not be started.
pub fn spawn_failure_text(tool: &str, cause: &str) -> (r: String)
    ensures
        r@ == spawn_failure_message(tool@, cause@),
{
    let mut r = concat3("执行 rclone 失败：", tool, "（");
    r.append(cause);
    r.append("）");
    r
}

/// What a sequence of outcomes holds.
pub open spec fn outcome_views(v: Seq<ProcessOutcome>) -> Seq<ProcessOutcomeView> {
    Seq::new(v.len(), |i: int| v[i]@)
}

/// What a test of the connection found.
#[derive(Debug)]
pub struct ConnectionTestResult {
    pub ok: bool,
    pub message: String,
}

/// What a [`ConnectionTestResult`] holds.
pub struct ConnectionTestResultView {
    pub ok: bool,
    pub message: Seq<char>,
}

impl View for ConnectionTestResult {
    type V = ConnectionTestResultView;

    open spec fn view(&self) -> ConnectionTestResultView {
        ConnectionTestResultView { ok: self.ok, message: self.message@ }
    }
}

/// What an optional result of a test holds.
pub open spec fn opt_test_view(o: Option<ConnectionTestResult>) -> Option<
    ConnectionTestResultView,
> {
    match o {
        Some(r) => Some(r@),
        None => None,
    }
}

/// The number of commands that a test of the connection runs.
pub const CONNECTION_TEST_STEPS: usize = 3;

/// The commands of a test of the connection, in order: list the remote, to
/// see that it can be reached; then make the projects root and the backup
/// root, to see that both can be written.
pub open spec fn connection_test_plan(cfg: AgentSyncConfigView, conf: Seq<char>) -> Seq<
    Seq<Seq<char>>,
> {
    seq![
        common_args(conf) + seq!["lsd"@, "remote:"@],
        common_args(conf) + seq!["mkdir"@, remote_spec(normalize(cfg.remote.projects_root))],
        common_args(conf) + seq!["mkdir"@, remote_spec(normalize(cfg.remote.backup_root))],
    ]
}

/// What a sequence of argument lists holds.
pub open spec fn command_views(v: Seq<Vec<String>>) -> Seq<Seq<Seq<char>>> {
    Seq::new(v.len(), |i: int| texts(v[i]@))
}

/// The commands of a test of the connection, in the order in which they run.
pub fn connection_test_commands(cfg: &AgentSyncConfig, rclone_conf: &str) -> (r: Vec<Vec<String>>)
    ensures
        command_views(r@) == connection_test_plan(cfg@, rclone_conf@),
{
    let mut list = make_common_args(rclone_conf);
    list.push("lsd".to_string());
    list.push("remote:".to_string());
    assert(texts(list@) =~= common_args(rclone_conf@) + seq!["lsd"@, "remote:"@]);
    let mut projects = make_common_args(rclone_conf);
    projects.push("mkdir".to_string());
    let root = normalize_remote_path(cfg.remote.projects_root.as_str());
    projects.push(concat2("remote:", root.as_str()));
    assert(texts(projects@) =~= common_args(rclone_conf@) + seq![
        "mkdir"@,
        remote_spec(normalize(cfg@.remote.projects_root)),
    ]);
    let mut backups = make_common_args(rclone_conf);
    backups.push("mkdir".to_string());
    let root = normalize_remote_path(cfg.remote.backup_root.as_str());
    backups.push(concat2("remote:", root.as_str()));
    assert(texts(backups@) =~= common_args(rclone_conf@) + seq![
        "mkdir"@,
        remote_spec(normalize(cfg@.remote.backup_root)),
    ]);
    let mut r: Vec<Vec<String>> = Vec::new();
    r.push(list);
    r.push(projects);
    r.push(backups);
    assert(command_views(r@) =~= connection_test_plan(cfg@, rclone_conf@));
    r
}

/// What the failure of the command at `step` is blamed on.
pub open spec fn step_blame(step: int) -> Seq<char> {
    if step == 0 {
        "连接失败："@
    } else if step == 1 {
        "目标端目录不可写（projects root）："@
    } else {
        "目标端目录不可写（backup root）："@
    }
}

/// Why the command at `step` failed, if it did: it could not be started, or
/// it ended without success, and then its error output says why.
pub open spec fn step_failure(tool: Seq<char>, step: int, outcome: ProcessOutcomeView) -> Option<
    Seq<char>,
> {
    match outcome {
        ProcessOutcomeView::SpawnFailed { cause } => Some(spawn_failure_message(tool, cause)),
        ProcessOutcomeView::Exited { success, code, stdout, stderr } => if success {
            None
        } else {
            Some(step_blame(step) + trim(stderr))
        },
    }
}

/// The message of a test that found the remote reachable and writable.
pub open spec fn connection_ok_message() -> Seq<char> {
    "连接成功：能连上目标电脑。\n写入权限正常：目标端目录可创建/可写。"@
}

/// The failure of the first command among the first `n` of `outcomes` that
/// failed, if one did.
pub open spec fn first_failure(tool: Seq<char>, outcomes: Seq<ProcessOutcomeView>, n: int)
    -> Option<Seq<char>>
    decreases n,
{
    if n <= 0 {
        None
    } else if first_failure(tool, outcomes, n - 1) is Some {
        first_failure(tool, outcomes, n - 1)
    } else {
        step_failure(tool, n - 1, outcomes[n - 1])
    }
}

/// What a test of the connection has found once the outcomes of its first
/// commands are known. The test ends with the first command that fails, and
/// is a failure then; it is a success when all three commands succeeded;
/// until then it has no result, and the next command is to be run.
pub open spec fn connection_verdict(tool: Seq<char>, outcomes: Seq<ProcessOutcomeView>) -> Option<
    ConnectionTestResultView,
> {
    let n = if outcomes.len() <= CONNECTION_TEST_STEPS {
        outcomes.len() as int
    } else {
        CONNECTION_TEST_STEPS as int
    };
    match first_failure(tool, outcomes, n) {
        Some(message) => Some(ConnectionTestResultView { ok: false, message }),
        None => if n == CONNECTION_TEST_STEPS {
            Some(ConnectionTestResultView { ok: true, message: connection_ok_message() })
        } else {
            None
        },
    }
}

/// The text of the failure of the command at `step`, if it failed.
fn step_failure_text(tool: &str, step: usize, outcome: &ProcessOutcome) -> (r: Option<String>)
    ensures
        opt_text(r) == step_failure(tool@, step as int, outcome@),
{
    match outcome {
        ProcessOutcome::SpawnFailed { cause } => Some(spawn_failure_text(tool, cause.as_str())),
        ProcessOutcome::Exited { success, code, stdout, stderr } => {
            if *success {
                None
            } else {
                let why = trimmed(stderr.as_str());
                let blame = if step == 0 {
                    "连接失败："
                } else if step == 1 {
                    "目标端目录不可写（projects root）："
                } else {
                    "目标端目录不可写（backup root）："
                };
                Some(concat2(blame, why.as_str()))
            }
        },
    }
}

/// Judges a test of the connection by the outcomes of the commands that
/// were run so far, in order. `None` asks for the next command of
/// [`connection_test_commands`] to be run and its outcome to be added.
pub fn test_connection(
    tool: &str,
    outcomes: &Vec<ProcessOutcome>,
) -> (r: Option<ConnectionTestResult>)
    ensures
        opt_test_view(r) == connection_verdict(tool@, outcome_views(outcomes@)),
{
    let n: usize = if outcomes.len() <= CONNECTION_TEST_STEPS {
        outcomes.len()
    } else {
        CONNECTION_TEST_STEPS
    };
    let ghost all = outcome_views(outcomes@);
    let mut i: usize = 0;
    while i < n
        invariant
            i <= n <= outcomes.len(),
            n == if outcomes.len() <= CONNECTION_TEST_STEPS {
                outcomes.len()
            } else {
                CONNECTION_TEST_STEPS
            },
            all == outcome_views(outcomes@),
            first_failure(tool@, all, i as int) is None,
        decreases n - i,
    {
        match step_failure_text(tool, i, &outcomes[i]) {
            Some(message) => {
                proof {
                    assert(all[i as int] == outcomes@[i as int]@);
                    assert(first_failure(tool@, all, i + 1) == Some(message@));
                    lemma_first_failure_stays(tool@, all, i + 1, n as int);
                }
                return Some(ConnectionTestResult { ok: false, message });
            },
            None => {
                assert(all[i as int] == outcomes@[i as int]@);
            },
        }
        i += 1;
    }
    if n == CONNECTION_TEST_STEPS {
        Some(
            ConnectionTestResult {
                ok: true,
                message: "连接成功：能连上目标电脑。\n写入权限正常：目标端目录可创建/可写。".to_string(),
            },
        )
    } else {
        None
    }
}

/// Once a command has failed, later outcomes do not change what the first
/// failure is.
proof fn lemma_first_failure_stays(
    tool: Seq<char>,
    outcomes: Seq<ProcessOutcomeView>,
    k: int,
    n: int,
)
    requires
        0 <= k <= n,
        first_failure(tool, outcomes, k) is Some,
    ensures
        first_failure(tool, outcomes, n) == first_failure(tool, outcomes, k),
    decreases n - k,
{
    if k < n {
        lemma_first_failure_stays(tool, outcomes, k, n - 1);
    }
}


} // verus!
