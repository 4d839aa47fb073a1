//! The units of a run: which transfers a configuration asks for, in which
//! order, and how each one is invoked.
//!
//! Every unit is routed through a backup directory of its own under the
//! backup root of the run, so that whatever a transfer overwrites or deletes
//! on the remote side is moved there and not destroyed.

use vstd::prelude::*;
use crate::config::{
    home_dir_text, project_views, AgentSyncConfig, AgentSyncConfigView, FlagsConfig, LocalPath,
    LocalPathView, ProjectItem, ProjectItemView,
};
use crate::rclone::{build_project_item_args, remote_spec, transfer_args};
use crate::remote_path::{
    forward_slashes, join, join_remote, normalize, without_trailing_separators,
};
use crate::text::{
    concat2, is_whitespace, lemma_strip_end_cut, lemma_strip_start_cut, opt_text, text_result,
    texts, trim, CharClass,
};

verus! {

/// What the local source of a unit has to be for the unit to run.
#[derive(Debug, Clone, Copy, PartialEq, Eq, Structural)]
pub enum SourceKind {
    /// A directory.
    Directory,
    /// A regular file.
    File,
}

/// One directory or file that a single invocation of the tool transfers.
#[derive(Debug)]
pub struct SyncUnit {
    /// The name under which the unit is reported.
    pub label: String,
    /// The local path that is transferred.
    pub source: String,
    /// What has to be at `source`.
    pub source_kind: SourceKind,
    /// The arguments of the invocation.
    pub args: Vec<String>,
    /// The message of the result where nothing is at `source`.
    pub skip_message: String,
}

/// What a [`SyncUnit`] holds.
pub struct SyncUnitView {
    pub label: Seq<char>,
    pub source: Seq<char>,
    pub source_kind: SourceKind,
    pub args: Seq<Seq<char>>,
    pub skip_message: Seq<char>,
}

impl View for SyncUnit {
    type V = SyncUnitView;

    open spec fn view(&self) -> SyncUnitView {
        SyncUnitView {
            label: self.label@,
            source: self.source@,
            source_kind: self.source_kind,
            args: texts(self.args@),
            skip_message: self.skip_message@,
        }
    }
}

/// What a sequence of units holds.
pub open spec fn unit_views(units: Seq<SyncUnit>) -> Seq<SyncUnitView> {
    Seq::new(units.len(), |i: int| units[i]@)
}

/// The local places of the two fixed auxiliary directories.
#[derive(Debug)]
pub struct LocalSources {
    /// The configuration file of the developer tool.
    pub codex_config: String,
    /// The session directory of the developer tool.
    pub codex_sessions: String,
    /// The personal directory.
    pub agents_dir: String,
}

/// What a [`LocalSources`] holds.
pub struct LocalSourcesView {
    pub codex_config: Seq<char>,
    pub codex_sessions: Seq<char>,
    pub agents_dir: Seq<char>,
}

impl View for LocalSources {
    type V = LocalSourcesView;

    open spec fn view(&self) -> LocalSourcesView {
        LocalSourcesView {
            codex_config: self.codex_config@,
            codex_sessions: self.codex_sessions@,
            agents_dir: self.agents_dir@,
        }
    }
}

/// What optional local places hold.
pub open spec fn opt_local_view(o: Option<LocalSources>) -> Option<LocalSourcesView> {
    match o {
        Some(l) => Some(l@),
        None => None,
    }
}

/// The backup root of one run: a directory of its own under the backup root
/// of the configuration, named by the run.
pub open spec fn run_backup_root_of(cfg: AgentSyncConfigView, run_id: Seq<char>) -> Seq<char> {
    join(cfg.remote.backup_root, run_id)
}

/// The backup root of the run `run_id`.
pub fn run_backup_root(cfg: &AgentSyncConfig, run_id: &str) -> (r: String)
    ensures
        r@ == run_backup_root_of(cfg@, run_id@),
{
    join_remote(cfg.remote.backup_root.as_str(), run_id)
}

/// The transfer mode of directories: a mirrored sync, which also deletes at
/// the destination, or an additive copy.
pub open spec fn transfer_mode(flags: FlagsConfig) -> Seq<char> {
    if flags.mirror_delete {
        "sync"@
    } else {
        "copy"@
    }
}

/// The label of a project.
pub open spec fn project_label_of(name: Seq<char>) -> Seq<char> {
    "项目: "@ + name
}

/// The label under which the project `p` is reported.
pub fn project_label(p: &ProjectItem) -> (r: String)
    ensures
        r@ == project_label_of(p@.name),
{
    concat2("项目: ", p.name.as_str())
}

/// The unit of a project: its local directory goes below the projects root,
/// with the exclusions of the configuration.
pub open spec fn project_unit(
    cfg: AgentSyncConfigView,
    conf: Seq<char>,
    backup_root: Seq<char>,
    p: ProjectItemView,
) -> SyncUnitView {
    SyncUnitView {
        label: project_label_of(p.name),
        source: p.local_path,
        source_kind: SourceKind::Directory,
        args: transfer_args(
            conf,
            transfer_mode(cfg.flags),
            p.local_path,
            join(cfg.remote.projects_root, p.remote_dir_name),
            join(backup_root, join("projects"@, p.remote_dir_name)),
            cfg.excludes,
            true,
        ),
        skip_message: "本机未找到项目目录，已跳过"@,
    }
}

/// The units of the enabled projects among `projects`, in their order.
pub open spec fn project_units(
    cfg: AgentSyncConfigView,
    conf: Seq<char>,
    backup_root: Seq<char>,
    projects: Seq<ProjectItemView>,
) -> Seq<SyncUnitView>
    decreases projects.len(),
{
    if projects.len() == 0 {
        Seq::empty()
    } else if projects.last().enabled {
        project_units(cfg, conf, backup_root, projects.drop_last()).push(
            project_unit(cfg, conf, backup_root, projects.last()),
        )
    } else {
        project_units(cfg, conf, backup_root, projects.drop_last())
    }
}

/// The unit of the session directory of the developer tool.
pub open spec fn sessions_unit(
    cfg: AgentSyncConfigView,
    conf: Seq<char>,
    backup_root: Seq<char>,
    local: LocalSourcesView,
) -> SyncUnitView {
    SyncUnitView {
        label: "Codex: sessions"@,
        source: local.codex_sessions,
        source_kind: SourceKind::Directory,
        args: transfer_args(
            conf,
            transfer_mode(cfg.flags),
            local.codex_sessions,
            ".codex/sessions"@,
            join(backup_root, "codex/sessions"@),
            cfg.excludes,
            false,
        ),
        skip_message: "本机未找到 .codex/sessions，已跳过"@,
    }
}

/// The unit of the configuration file of the developer tool: one file,
/// copied to its fixed place whatever the transfer mode of directories is.
pub open spec fn codex_config_unit(
    cfg: AgentSyncConfigView,
    conf: Seq<char>,
    backup_root: Seq<char>,
    local: LocalSourcesView,
) -> SyncUnitView {
    SyncUnitView {
        label: "Codex: config.toml"@,
        source: local.codex_config,
        source_kind: SourceKind::File,
        args: transfer_args(
            conf,
            "copyto"@,
            local.codex_config,
            ".codex/config.toml"@,
            join(backup_root, "codex/config"@),
            cfg.excludes,
            false,
        ),
        skip_message: "本机未找到 .codex/config.toml，已跳过"@,
    }
}

/// The unit of the personal directory.
pub open spec fn agents_unit(
    cfg: AgentSyncConfigView,
    conf: Seq<char>,
    backup_root: Seq<char>,
    local: LocalSourcesView,
) -> SyncUnitView {
    SyncUnitView {
        label: ".agents"@,
        source: local.agents_dir,
        source_kind: SourceKind::Directory,
        args: transfer_args(
            conf,
            transfer_mode(cfg.flags),
            local.agents_dir,
            ".agents"@,
            join(backup_root, "agents"@),
            cfg.excludes,
            false,
        ),
        skip_message: "本机未找到 ~/.agents，已跳过"@,
    }
}

/// The units of the two auxiliary directories that the switches ask for.
pub open spec fn auxiliary_units(
    cfg: AgentSyncConfigView,
    conf: Seq<char>,
    backup_root: Seq<char>,
    local: LocalSourcesView,
) -> Seq<SyncUnitView> {
    (if cfg.flags.sync_codex {
        seq![
            sessions_unit(cfg, conf, backup_root, local),
            codex_config_unit(cfg, conf, backup_root, local),
        ]
    } else {
        Seq::empty()
    }) + (if cfg.flags.sync_agents {
        seq![agents_unit(cfg, conf, backup_root, local)]
    } else {
        Seq::empty()
    })
}

/// Whether the configuration asks for an auxiliary directory.
pub open spec fn wants_auxiliary(cfg: AgentSyncConfigView) -> bool {
    cfg.flags.sync_codex || cfg.flags.sync_agents
}

/// The message of a plan that needs the local home directory and has none.
pub open spec fn no_home_message() -> Seq<char> {
    "找不到本机用户目录（home directory）"@
}

/// The units of a run, in the order in which they are executed: the enabled
/// projects in the order of the configuration, then the session directory
/// and the configuration file of the developer tool, then the personal
/// directory. A plan with an auxiliary directory needs the local places.
pub open spec fn planned_units(
    cfg: AgentSyncConfigView,
    conf: Seq<char>,
    backup_root: Seq<char>,
    local: Option<LocalSourcesView>,
) -> Result<Seq<SyncUnitView>, Seq<char>> {
    if !wants_auxiliary(cfg) {
        Ok(project_units(cfg, conf, backup_root, cfg.projects))
    } else if local is None {
        Err(no_home_message())
    } else {
        Ok(
            project_units(cfg, conf, backup_root, cfg.projects) + auxiliary_units(
                cfg,
                conf,
                backup_root,
                local->0,
            ),
        )
    }
}

/// What the result of planning holds.
pub open spec fn plan_view(r: Result<Vec<SyncUnit>, String>) -> Result<
    Seq<SyncUnitView>,
    Seq<char>,
> {
    match r {
        Ok(units) => Ok(unit_views(units@)),
        Err(e) => Err(e@),
    }
}

/// Builds the unit of the auxiliary source at `source`.
fn auxiliary_unit(
    cfg: &AgentSyncConfig,
    rclone_conf: &str,
    label: &str,
    mode: &str,
    source: &str,
    source_kind: SourceKind,
    remote_dest: &str,
    backup_dir: String,
    skip_message: &str,
) -> (r: SyncUnit)
    ensures
        r@ == (SyncUnitView {
            label: label@,
            source: source@,
            source_kind,
            args: transfer_args(
                rclone_conf@,
                mode@,
                source@,
                remote_dest@,
                backup_dir@,
                cfg@.excludes,
                false,
            ),
            skip_message: skip_message@,
        }),
{
    SyncUnit {
        label: label.to_owned(),
        source: source.to_owned(),
        source_kind,
        args: build_project_item_args(
            cfg,
            rclone_conf,
            mode,
            source,
            remote_dest,
            backup_dir.as_str(),
            false,
        ),
        skip_message: skip_message.to_owned(),
    }
}

/// The name of the transfer mode of directories.
fn mode_name(flags: &FlagsConfig) -> (r: &'static str)
    ensures
        r@ == transfer_mode(*flags),
{
    if flags.mirror_delete {
        "sync"
    } else {
        "copy"
    }
}

/// Plans the units of a run. `rclone_conf` is the file with the connection
/// settings, `backup_root` the backup root of the run, and `local` the local
/// places of the auxiliary directories, or `None` where the machine has no
/// home directory.
pub fn plan_units(
    cfg: &AgentSyncConfig,
    rclone_conf: &str,
    backup_root: &str,
    local: &Option<LocalSources>,
) -> (r: Result<Vec<SyncUnit>, String>)
    ensures
        plan_view(r) == planned_units(cfg@, rclone_conf@, backup_root@, opt_local_view(*local)),
{
    let mode = mode_name(&cfg.flags);
    let mut units: Vec<SyncUnit> = Vec::new();
    let ghost all = project_views(cfg.projects@);
    let mut i: usize = 0;
    assert(unit_views(units@) =~= project_units(cfg@, rclone_conf@, backup_root@, all.take(0)));
    while i < cfg.projects.len()
        invariant
            i <= cfg.projects.len(),
            all == project_views(cfg.projects@),
            mode@ == transfer_mode(cfg@.flags),
            unit_views(units@) == project_units(
                cfg@,
                rclone_conf@,
                backup_root@,
                all.take(i as int),
            ),
        decreases cfg.projects.len() - i,
    {
        let p = &cfg.projects[i];
        proof {
            assert(all.take(i + 1).drop_last() =~= all.take(i as int));
            assert(all.take(i + 1).last() == p@);
        }
        if p.enabled {
            let remote_dest = join_remote(
                cfg.remote.projects_root.as_str(),
                p.remote_dir_name.as_str(),
            );
            let sub = join_remote("projects", p.remote_dir_name.as_str());
            let backup_dir = join_remote(backup_root, sub.as_str());
            let unit = SyncUnit {
                label: project_label(p),
                source: p.local_path.clone(),
                source_kind: SourceKind::Directory,
                args: build_project_item_args(
                    cfg,
                    rclone_conf,
                    mode,
                    p.local_path.as_str(),
                    remote_dest.as_str(),
                    backup_dir.as_str(),
                    true,
                ),
                skip_message: "本机未找到项目目录，已跳过".to_string(),
            };
            let ghost before = unit_views(units@);
            units.push(unit);
            assert(unit_views(units@) =~= before.push(
                project_unit(cfg@, rclone_conf@, backup_root@, p@),
            ));
        }
        i += 1;
    }
    assert(all.take(cfg.projects@.len() as int) =~= all);
    if !cfg.flags.sync_codex && !cfg.flags.sync_agents {
        return Ok(units);
    }
    let local = match local {
        Some(l) => l,
        None => {
            return Err("找不到本机用户目录（home directory）".to_string());
        },
    };
    let ghost projects = unit_views(units@);
    if cfg.flags.sync_codex {
        let sessions = auxiliary_unit(
            cfg,
            rclone_conf,
            "Codex: sessions",
            mode,
            local.codex_sessions.as_str(),
            SourceKind::Directory,
            ".codex/sessions",
            join_remote(backup_root, "codex/sessions"),
            "本机未找到 .codex/sessions，已跳过",
        );
        units.push(sessions);
        let config = auxiliary_unit(
            cfg,
            rclone_conf,
            "Codex: config.toml",
            "copyto",
            local.codex_config.as_str(),
            SourceKind::File,
            ".codex/config.toml",
            join_remote(backup_root, "codex/config"),
            "本机未找到 .codex/config.toml，已跳过",
        );
        units.push(config);
    }
    if cfg.flags.sync_agents {
        let agents = auxiliary_unit(
            cfg,
            rclone_conf,
            ".agents",
            mode,
            local.agents_dir.as_str(),
            SourceKind::Directory,
            ".agents",
            join_remote(backup_root, "agents"),
            "本机未找到 ~/.agents，已跳过",
        );
        units.push(agents);
    }
    assert(unit_views(units@) =~= projects + auxiliary_units(
        cfg@,
        rclone_conf@,
        backup_root@,
        local@,
    ));
    Ok(units)
}

/// The number of enabled projects among `projects`.
pub open spec fn enabled_count(projects: Seq<ProjectItemView>) -> nat
    decreases projects.len(),
{
    if projects.len() == 0 {
        0
    } else {
        enabled_count(projects.drop_last()) + (if projects.last().enabled {
            1nat
        } else {
            0nat
        })
    }
}

/// The number of units that the configuration asks for.
pub open spec fn unit_count(cfg: AgentSyncConfigView) -> nat {
    enabled_count(cfg.projects) + (if cfg.flags.sync_codex {
        2nat
    } else {
        0nat
    }) + (if cfg.flags.sync_agents {
        1nat
    } else {
        0nat
    })
}

/// The number of units that a run of `cfg` will attempt, as the status shows
/// it: the true number, or the largest number that the counter holds.
pub fn estimate_total_items(cfg: &AgentSyncConfig) -> (r: u32)
    ensures
        r == if unit_count(cfg@) <= u32::MAX {
            unit_count(cfg@) as u32
        } else {
            u32::MAX
        },
{
    let ghost all = project_views(cfg.projects@);
    let mut n: usize = 0;
    let mut i: usize = 0;
    while i < cfg.projects.len()
        invariant
            i <= cfg.projects.len(),
            all == project_views(cfg.projects@),
            n == enabled_count(all.take(i as int)),
            n <= i,
        decreases cfg.projects.len() - i,
    {
        proof {
            assert(all.take(i + 1).drop_last() =~= all.take(i as int));
            assert(all.take(i + 1).last() == cfg.projects@[i as int]@);
        }
        if cfg.projects[i].enabled {
            n += 1;
        }
        i += 1;
    }
    assert(all.take(cfg.projects@.len() as int) =~= all);
    let mut total: u32 = if n > 0xffff_ffff {
        u32::MAX
    } else {
        n as u32
    };
    if cfg.flags.sync_codex {
        total = total.saturating_add(2);
    }
    if cfg.flags.sync_agents {
        total = total.saturating_add(1);
    }
    total
}

/// The projects contribute one unit for each that is enabled.
proof fn lemma_project_units_len(
    cfg: AgentSyncConfigView,
    conf: Seq<char>,
    backup_root: Seq<char>,
    projects: Seq<ProjectItemView>,
)
    ensures
        project_units(cfg, conf, backup_root, projects).len() == enabled_count(projects),
    decreases projects.len(),
{
    if projects.len() > 0 {
        lemma_project_units_len(cfg, conf, backup_root, projects.drop_last());
    }
}

/// A plan holds as many units as the configuration is counted to ask for.
pub proof fn lemma_plan_len(
    cfg: AgentSyncConfigView,
    conf: Seq<char>,
    backup_root: Seq<char>,
    local: Option<LocalSourcesView>,
)
    requires
        planned_units(cfg, conf, backup_root, local) is Ok,
    ensures
        planned_units(cfg, conf, backup_root, local)->Ok_0.len() == unit_count(cfg),
{
    lemma_project_units_len(cfg, conf, backup_root, cfg.projects);
}

/// Where no project is enabled and both auxiliary directories are switched
/// off, the plan is empty.
pub proof fn lemma_nothing_enabled_plans_nothing(
    cfg: AgentSyncConfigView,
    conf: Seq<char>,
    backup_root: Seq<char>,
    local: Option<LocalSourcesView>,
)
    requires
        forall|i: int| 0 <= i < cfg.projects.len() ==> !(#[trigger] cfg.projects[i]).enabled,
        !cfg.flags.sync_codex,
        !cfg.flags.sync_agents,
    ensures
        planned_units(cfg, conf, backup_root, local) == Ok::<Seq<SyncUnitView>, Seq<char>>(
            Seq::empty(),
        ),
{
    lemma_no_enabled_project(cfg, conf, backup_root, cfg.projects);
}

/// Projects of which none is enabled contribute no unit.
proof fn lemma_no_enabled_project(
    cfg: AgentSyncConfigView,
    conf: Seq<char>,
    backup_root: Seq<char>,
    projects: Seq<ProjectItemView>,
)
    requires
        forall|i: int| 0 <= i < projects.len() ==> !(#[trigger] projects[i]).enabled,
    ensures
        project_units(cfg, conf, backup_root, projects) == Seq::<SyncUnitView>::empty(),
    decreases projects.len(),
{
    if projects.len() > 0 {
        let head = projects.drop_last();
        assert forall|i: int| 0 <= i < head.len() implies !(#[trigger] head[i]).enabled by {
            assert(head[i] == projects[i]);
        }
        lemma_no_enabled_project(cfg, conf, backup_root, head);
    }
}

/// Whether the arguments route the transfer through a backup directory below
/// `backup_root`.
pub open spec fn backs_up_under(args: Seq<Seq<char>>, backup_root: Seq<char>) -> bool {
    &&& args.len() >= 10
    &&& args[8] == "--backup-dir"@
    &&& exists|sub: Seq<char>| args[9] == remote_spec(#[trigger] join(backup_root, sub))
}

/// Every unit of a plan is routed through a backup directory below the
/// backup root of the run.
pub proof fn lemma_every_unit_backs_up(
    cfg: AgentSyncConfigView,
    conf: Seq<char>,
    backup_root: Seq<char>,
    local: Option<LocalSourcesView>,
)
    requires
        planned_units(cfg, conf, backup_root, local) is Ok,
    ensures
        forall|i: int|
            0 <= i < planned_units(cfg, conf, backup_root, local)->Ok_0.len() ==> backs_up_under(
                (#[trigger] planned_units(cfg, conf, backup_root, local)->Ok_0[i]).args,
                backup_root,
            ),
{
    let units = planned_units(cfg, conf, backup_root, local)->Ok_0;
    let projects = project_units(cfg, conf, backup_root, cfg.projects);
    lemma_project_units_back_up(cfg, conf, backup_root, cfg.projects);
    assert forall|i: int| 0 <= i < units.len() implies backs_up_under(
        (#[trigger] units[i]).args,
        backup_root,
    ) by {
        if i < projects.len() {
            assert(units[i] == projects[i]);
        } else {
            let l = local->0;
            let u = units[i];
            assert(u == sessions_unit(cfg, conf, backup_root, l) || u == codex_config_unit(
                cfg,
                conf,
                backup_root,
                l,
            ) || u == agents_unit(cfg, conf, backup_root, l));
            if u == sessions_unit(cfg, conf, backup_root, l) {
                assert(u.args[9] == remote_spec(join(backup_root, "codex/sessions"@)));
            } else if u == codex_config_unit(cfg, conf, backup_root, l) {
                assert(u.args[9] == remote_spec(join(backup_root, "codex/config"@)));
            } else {
                assert(u.args[9] == remote_spec(join(backup_root, "agents"@)));
            }
        }
    }
}

/// Every unit of a project is routed through a backup directory below the
/// backup root of the run.
proof fn lemma_project_units_back_up(
    cfg: AgentSyncConfigView,
    conf: Seq<char>,
    backup_root: Seq<char>,
    projects: Seq<ProjectItemView>,
)
    ensures
        forall|i: int|
            0 <= i < project_units(cfg, conf, backup_root, projects).len() ==> backs_up_under(
                (#[trigger] project_units(cfg, conf, backup_root, projects)[i]).args,
                backup_root,
            ),
    decreases projects.len(),
{
    if projects.len() > 0 {
        let head = project_units(cfg, conf, backup_root, projects.drop_last());
        lemma_project_units_back_up(cfg, conf, backup_root, projects.drop_last());
        let p = projects.last();
        let u = project_unit(cfg, conf, backup_root, p);
        assert(u.args[9] == remote_spec(join(backup_root, join("projects"@, p.remote_dir_name))));
        let units = project_units(cfg, conf, backup_root, projects);
        assert forall|i: int| 0 <= i < units.len() implies backs_up_under(
            (#[trigger] units[i]).args,
            backup_root,
        ) by {
            if i < head.len() {
                assert(units[i] == head[i]);
            } else {
                assert(units[i] == u);
            }
        }
    }
}

/// Only the units of projects carry exclusions: an auxiliary unit has the
/// ten fixed arguments and no more.
pub proof fn lemma_auxiliary_units_have_no_excludes(
    cfg: AgentSyncConfigView,
    conf: Seq<char>,
    backup_root: Seq<char>,
    local: LocalSourcesView,
)
    ensures
        forall|i: int|
            0 <= i < auxiliary_units(cfg, conf, backup_root, local).len() ==> (
            #[trigger] auxiliary_units(cfg, conf, backup_root, local)[i]).args.len() == 10,
{
}

/// The characters of which the name of a run is made.
pub open spec fn is_lower_hex(c: char) -> bool {
    ('0' <= c && c <= '9') || ('a' <= c && c <= 'f')
}

/// Whether `id` has the form of the name of a run: 32 hexadecimal digits in
/// lower case.
pub open spec fn is_run_id(id: Seq<char>) -> bool {
    &&& id.len() == 32
    &&& forall|i: int| 0 <= i < id.len() ==> is_lower_hex(#[trigger] id[i])
}

/// A random identifier.
///
/// This is `uuid::Uuid::new_v4`, written out through the `simple` format of
/// that crate in lower case. The value is random, so the contract holds only
/// what is true of every outcome: the format writes each of the 16 bytes of
/// the identifier as two hexadecimal digits, without hyphens. The call
/// panics if the operating system cannot supply random bytes.
#[verifier::external_body]
pub(crate) fn random_id() -> (r: String)
    ensures
        is_run_id(r@),
{
    uuid::Uuid::new_v4().simple().to_string()
}

/// A fresh name for a run. It is drawn at random, which makes it different
/// from the names of other runs in practice; nothing else is relied on.
pub fn new_run_id() -> (r: String)
    ensures
        is_run_id(r@),
{
    random_id()
}

/// The name of a run is a path segment in normal form already.
pub proof fn lemma_run_id_is_normal(id: Seq<char>)
    requires
        is_run_id(id),
    ensures
        normalize(id) == id,
{
    let ws = CharClass::Whitespace;
    assert(!is_whitespace(id[0]));
    assert(!is_whitespace(id[31]));
    lemma_strip_start_cut(id, ws, 0);
    assert(id.skip(0) =~= id);
    lemma_strip_end_cut(id, ws, 32);
    assert(id.take(32) =~= id);
    assert(trim(id) == id);
    assert forall|i: int| 0 <= i < id.len() implies forward_slashes(id)[i] == id[i] by {
        assert(is_lower_hex(id[i]));
    }
    assert(forward_slashes(id) =~= id);
    assert(id[0] != '~');
}

/// Every run has a backup root of its own: two runs with different names
/// never share one.
pub proof fn lemma_backup_roots_are_isolated(
    cfg: AgentSyncConfigView,
    id1: Seq<char>,
    id2: Seq<char>,
)
    requires
        is_run_id(id1),
        is_run_id(id2),
        id1 != id2,
    ensures
        run_backup_root_of(cfg, id1) != run_backup_root_of(cfg, id2),
{
    lemma_run_id_is_normal(id1);
    lemma_run_id_is_normal(id2);
    let root = normalize(cfg.remote.backup_root);
    if root.len() > 0 {
        let head = without_trailing_separators(root) + seq!['/'];
        let a = head + id1;
        let b = head + id2;
        assert(id1 =~= a.skip(head.len() as int));
        assert(id2 =~= b.skip(head.len() as int));
        assert(is_lower_hex(id1[0]));
        assert(is_lower_hex(id2[0]));
        lemma_strip_start_cut(id1, CharClass::Exactly('/'), 0);
        lemma_strip_start_cut(id2, CharClass::Exactly('/'), 0);
        assert(id1.skip(0) =~= id1);
        assert(id2.skip(0) =~= id2);
    }
}

/// The home directory as the auxiliary directories need it: `home` itself
/// where the machine has one, else the error that says that it has none.
pub open spec fn home_or_error(home: Option<Seq<char>>) -> Result<Seq<char>, Seq<char>> {
    match home {
        Some(h) => Ok(h),
        None => Err(no_home_message()),
    }
}

/// The home directory `home`, or the error of a machine without one.
pub fn local_home_dir_in(home: Option<String>) -> (r: Result<String, String>)
    ensures
        text_result(r) == home_or_error(opt_text(home)),
{
    match home {
        Some(h) => Ok(h),
        None => Err("找不到本机用户目录（home directory）".to_string()),
    }
}

/// The home directory of the user on this machine, as the auxiliary
/// directories need it. Which directory that is, and whether there is one,
/// is for the machine to say.
pub fn local_home_dir() -> (r: Result<String, String>)
    ensures
        r is Err ==> r->Err_0@ == no_home_message(),
{
    local_home_dir_in(home_dir_text())
}

/// The names that lead from the home directory to the configuration file of
/// the developer tool.
pub open spec fn codex_config_names() -> Seq<Seq<char>> {
    seq![".codex"@, "config.toml"@]
}

/// The names that lead from the home directory to the session directory of
/// the developer tool.
pub open spec fn codex_sessions_names() -> Seq<Seq<char>> {
    seq![".codex"@, "sessions"@]
}

/// The names that lead from the home directory to the personal directory.
pub open spec fn agents_dir_names() -> Seq<Seq<char>> {
    seq![".agents"@]
}

/// The place that `first`, and then `second` if there is one, lead to from
/// `home`.
fn place_below(home: &String, first: &str, second: Option<&str>) -> (r: LocalPath)
    ensures
        r@.base == home@,
        r@.names == match second {
            Some(name) => seq![first@, name@],
            None => seq![first@],
        },
{
    let mut names: Vec<String> = Vec::new();
    names.push(first.to_owned());
    match second {
        Some(name) => {
            names.push(name.to_owned());
            assert(texts(names@) =~= seq![first@, name@]);
        },
        None => {
            assert(texts(names@) =~= seq![first@]);
        },
    }
    LocalPath { base: home.clone(), names }
}

/// The local places of the developer tool: its configuration file and its
/// session directory, both in `.codex` in the home directory.
pub fn codex_paths() -> (r: Result<(LocalPath, LocalPath), String>)
    ensures
        r is Err ==> r->Err_0@ == no_home_message(),
        r is Ok ==> {
            &&& r->Ok_0.0@.names == codex_config_names()
            &&& r->Ok_0.1@.names == codex_sessions_names()
            &&& r->Ok_0.0@.base == r->Ok_0.1@.base
        },
{
    match local_home_dir() {
        Ok(home) => Ok(
            (
                place_below(&home, ".codex", Some("config.toml")),
                place_below(&home, ".codex", Some("sessions")),
            ),
        ),
        Err(e) => Err(e),
    }
}

/// The local place of the personal directory: `.agents` in the home directory.
pub fn agents_dir() -> (r: Result<LocalPath, String>)
    ensures
        r is Err ==> r->Err_0@ == no_home_message(),
        r is Ok ==> r->Ok_0@.names == agents_dir_names(),
{
    match local_home_dir() {
        Ok(home) => Ok(place_below(&home, ".agents", None)),
        Err(e) => Err(e),
    }
}

/// The local places of the two auxiliary directories, all below one home
/// directory. The caller turns them into the texts of [`LocalSources`].
#[derive(Debug)]
pub struct LocalPlaces {
    /// The configuration file of the developer tool.
    pub codex_config: LocalPath,
    /// The session directory of the developer tool.
    pub codex_sessions: LocalPath,
    /// The personal directory.
    pub agents_dir: LocalPath,
}

/// What a [`LocalPlaces`] holds.
pub struct LocalPlacesView {
    pub codex_config: LocalPathView,
    pub codex_sessions: LocalPathView,
    pub agents_dir: LocalPathView,
}

impl View for LocalPlaces {
    type V = LocalPlacesView;

    open spec fn view(&self) -> LocalPlacesView {
        LocalPlacesView {
            codex_config: self.codex_config@,
            codex_sessions: self.codex_sessions@,
            agents_dir: self.agents_dir@,
        }
    }
}

/// What optional places hold.
pub open spec fn opt_places_view(o: Option<LocalPlaces>) -> Option<LocalPlacesView> {
    match o {
        Some(p) => Some(p@),
        None => None,
    }
}

/// The places of the auxiliary directories below the home directory `home`.
pub open spec fn places_below(home: Seq<char>) -> LocalPlacesView {
    LocalPlacesView {
        codex_config: LocalPathView { base: home, names: codex_config_names() },
        codex_sessions: LocalPathView { base: home, names: codex_sessions_names() },
        agents_dir: LocalPathView { base: home, names: agents_dir_names() },
    }
}

/// The places of the auxiliary directories where the machine has the home
/// directory `home`, and none where it has no home directory.
pub open spec fn places_in_home(home: Option<Seq<char>>) -> Option<LocalPlacesView> {
    match home {
        Some(h) => Some(places_below(h)),
        None => None,
    }
}

/// The local places of the auxiliary directories below the home directory
/// `home`: there are such places exactly where there is a home directory.
pub fn local_sources_in(home: Option<String>) -> (r: Option<LocalPlaces>)
    ensures
        opt_places_view(r) == places_in_home(opt_text(home)),
{
    match home {
        Some(home) => Some(
            LocalPlaces {
                codex_config: place_below(&home, ".codex", Some("config.toml")),
                codex_sessions: place_below(&home, ".codex", Some("sessions")),
                agents_dir: place_below(&home, ".agents", None),
            },
        ),
        None => None,
    }
}

/// The local places of the auxiliary directories on this machine, or `None`
/// if it has no home directory. Which directory the home directory is, is
/// for the machine to say; where the places lie in it is fixed.
pub fn local_sources() -> (r: Option<LocalPlaces>)
    ensures
        r is Some ==> r->0@ == places_below(r->0@.agents_dir.base),
{
    local_sources_in(home_dir_text())
}

} // verus!
