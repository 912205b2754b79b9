//! Agents as a whole: how one is created, deleted and listed. What has to be
//! done on disk is left to the caller, in the order in which the steps come.

use vstd::prelude::*;

#[allow(unused_imports)]
use crate::alias::{distinct_aliases, entry_is, lemma_table_entry, table};
use crate::config::{AliasedAgentConfig, Config, MemoryBackendKind, PeerGroupConfig};
#[allow(unused_imports)]
use crate::config::{AliasedAgentConfigView, MemoryBackendKindView, PeerGroupConfigView};
use crate::order::sort_order;
#[allow(unused_imports)]
use crate::order::{
    arranged, is_sort_order, law_sort_order_is_sorted, lemma_arranged_has_same_items,
    lemma_sort_order_exists, sorted_order, text_le,
};
use crate::quote::quote;
#[allow(unused_imports)]
use crate::quote::quoted;
use crate::sessions::{active_sessions_for, SessionRegistry};
#[allow(unused_imports)]
use crate::sessions::{count_in, registered, released};
use crate::text::{copy_strings, decimal_of, same_text};
#[allow(unused_imports)]
use crate::text::{decimal, opt_text, texts};

verus! {

// ---------------------------------------------------------------------------
// Errors
// ---------------------------------------------------------------------------

/// Why an agent was not created or deleted. A `cause` is what the step that
/// failed said of it.
#[derive(Debug)]
pub enum AgentError {
    AlreadyExists { alias: String },
    UnknownRiskProfile { profile: String },
    NotConfigured { alias: String },
    ActiveSessions { alias: String, active: usize },
    WorkspaceNotMade { dir: String, cause: String },
    WorkspaceNotSeeded { dir: String, cause: String },
    WorkspaceNotRemoved { dir: String, cause: String },
    ConfigNotSaved { cause: String },
}

/// Why an agent was not created or deleted, with texts as sequences.
pub enum AgentErrorView {
    AlreadyExists { alias: Seq<char> },
    UnknownRiskProfile { profile: Seq<char> },
    NotConfigured { alias: Seq<char> },
    ActiveSessions { alias: Seq<char>, active: usize },
    WorkspaceNotMade { dir: Seq<char>, cause: Seq<char> },
    WorkspaceNotSeeded { dir: Seq<char>, cause: Seq<char> },
    WorkspaceNotRemoved { dir: Seq<char>, cause: Seq<char> },
    ConfigNotSaved { cause: Seq<char> },
}

impl View for AgentError {
    type V = AgentErrorView;

    open spec fn view(&self) -> AgentErrorView {
        match *self {
            AgentError::AlreadyExists { alias } => AgentErrorView::AlreadyExists { alias: alias@ },
            AgentError::UnknownRiskProfile { profile } => AgentErrorView::UnknownRiskProfile {
                profile: profile@,
            },
            AgentError::NotConfigured { alias } => AgentErrorView::NotConfigured { alias: alias@ },
            AgentError::ActiveSessions { alias, active } => AgentErrorView::ActiveSessions {
                alias: alias@,
                active,
            },
            AgentError::WorkspaceNotMade { dir, cause } => AgentErrorView::WorkspaceNotMade {
                dir: dir@,
                cause: cause@,
            },
            AgentError::WorkspaceNotSeeded { dir, cause } => AgentErrorView::WorkspaceNotSeeded {
                dir: dir@,
                cause: cause@,
            },
            AgentError::WorkspaceNotRemoved { dir, cause } => AgentErrorView::WorkspaceNotRemoved {
                dir: dir@,
                cause: cause@,
            },
            AgentError::ConfigNotSaved { cause } => AgentErrorView::ConfigNotSaved {
                cause: cause@,
            },
        }
    }
}

impl AgentErrorView {
    /// The name that the error speaks of; empty where it speaks of none.
    pub open spec fn subject(self) -> Seq<char> {
        match self {
            AgentErrorView::AlreadyExists { alias } => alias,
            AgentErrorView::UnknownRiskProfile { profile } => profile,
            AgentErrorView::NotConfigured { alias } => alias,
            AgentErrorView::ActiveSessions { alias, .. } => alias,
            _ => Seq::empty(),
        }
    }

    /// What the error says, with `name` for the name that it speaks of.
    pub open spec fn text_with(self, name: Seq<char>) -> Seq<char> {
        match self {
            AgentErrorView::AlreadyExists { .. } => "agent "@ + name
                + " already exists; refusing to overwrite"@,
            AgentErrorView::UnknownRiskProfile { .. } => "risk_profile "@ + name
                + " is not configured; create it under [risk_profiles.<alias>] before binding it to an agent"@,
            AgentErrorView::NotConfigured { .. } => "agent "@ + name + " is not configured"@,
            AgentErrorView::ActiveSessions { active, .. } => "agent "@ + name + " has "@ + decimal(
                active as nat,
            )
                + " active session(s); refuse to delete. Stop the running sessions first, or pass force_active_sessions=true to override (the in-flight agent loop will surface I/O errors when its workspace disappears)."@,
            AgentErrorView::WorkspaceNotMade { dir, .. } =>
            "failed to create per-agent workspace at "@ + dir,
            AgentErrorView::WorkspaceNotSeeded { dir, .. } =>
            "failed to seed bootstrap identity files in "@ + dir,
            AgentErrorView::WorkspaceNotRemoved { dir, .. } =>
            "failed to remove agent workspace at "@ + dir,
            AgentErrorView::ConfigNotSaved { .. } => "failed to save config"@,
        }
    }

    /// What the error says.
    pub open spec fn text(self) -> Seq<char> {
        self.text_with(quoted(self.subject()))
    }
}

impl AgentError {
    /// What the error says, with `name` for the name that it speaks of.
    pub fn message_with(&self, name: &str) -> (out: String)
        ensures
            out@ == self@.text_with(name@),
    {
        match self {
            AgentError::AlreadyExists { .. } => {
                let mut out = "agent ".to_owned();
                out.append(name);
                out.append(" already exists; refusing to overwrite");
                out
            },
            AgentError::UnknownRiskProfile { .. } => {
                let mut out = "risk_profile ".to_owned();
                out.append(name);
                out.append(
                    " is not configured; create it under [risk_profiles.<alias>] before binding it to an agent",
                );
                out
            },
            AgentError::NotConfigured { .. } => {
                let mut out = "agent ".to_owned();
                out.append(name);
                out.append(" is not configured");
                out
            },
            AgentError::ActiveSessions { active, .. } => {
                let mut out = "agent ".to_owned();
                out.append(name);
                out.append(" has ");
                let n = decimal_of(*active as u64);
                out.append(n.as_str());
                out.append(
                    " active session(s); refuse to delete. Stop the running sessions first, or pass force_active_sessions=true to override (the in-flight agent loop will surface I/O errors when its workspace disappears).",
                );
                out
            },
            AgentError::WorkspaceNotMade { dir, .. } => {
                let mut out = "failed to create per-agent workspace at ".to_owned();
                out.append(dir.as_str());
                out
            },
            AgentError::WorkspaceNotSeeded { dir, .. } => {
                let mut out = "failed to seed bootstrap identity files in ".to_owned();
                out.append(dir.as_str());
                out
            },
            AgentError::WorkspaceNotRemoved { dir, .. } => {
                let mut out = "failed to remove agent workspace at ".to_owned();
                out.append(dir.as_str());
                out
            },
            AgentError::ConfigNotSaved { .. } => "failed to save config".to_owned(),
        }
    }

    /// What the error says.
    pub fn message(&self) -> (out: String)
        ensures
            out@ == self@.text(),
    {
        let name: String = match self {
            AgentError::AlreadyExists { alias } => quote(alias.as_str()),
            AgentError::UnknownRiskProfile { profile } => quote(profile.as_str()),
            AgentError::NotConfigured { alias } => quote(alias.as_str()),
            AgentError::ActiveSessions { alias, .. } => quote(alias.as_str()),
            _ => {
                let none = String::new();
                proof {
                    assert(none@ =~= Seq::<char>::empty());
                }
                quote(none.as_str())
            },
        };
        self.message_with(name.as_str())
    }
}

// ---------------------------------------------------------------------------
// Creating
// ---------------------------------------------------------------------------

/// What a new agent is to be.
#[derive(Debug)]
pub struct AgentSpec {
    /// The alias that it goes by. No other agent has it.
    pub alias: String,
    /// The risk profile that it is bound to. There has to be one of this name.
    pub risk_profile: String,
    /// The model provider; empty where not given.
    pub model_provider: Option<String>,
    /// The memory backend; SQLite where not given.
    pub memory_backend: Option<MemoryBackendKind>,
}

/// What a new agent is to be, with texts as sequences.
pub struct AgentSpecView {
    pub alias: Seq<char>,
    pub risk_profile: Seq<char>,
    pub model_provider: Option<Seq<char>>,
    pub memory_backend: Option<MemoryBackendKindView>,
}

impl View for AgentSpec {
    type V = AgentSpecView;

    open spec fn view(&self) -> AgentSpecView {
        AgentSpecView {
            alias: self.alias@,
            risk_profile: self.risk_profile@,
            model_provider: opt_text(self.model_provider),
            memory_backend: match self.memory_backend {
                Some(backend) => Some(backend@),
                None => None,
            },
        }
    }
}

/// The block that a new agent gets in the configuration.
pub open spec fn agent_block(spec: AgentSpecView) -> AliasedAgentConfigView {
    AliasedAgentConfigView {
        risk_profile: spec.risk_profile,
        model_provider: match spec.model_provider {
            Some(provider) => provider,
            None => Seq::empty(),
        },
        memory_backend: match spec.memory_backend {
            Some(backend) => backend,
            None => MemoryBackendKindView::Sqlite,
        },
        channels: Seq::empty(),
    }
}

/// Why an agent cannot be created, if it cannot: its alias is taken, or its
/// risk profile is not configured.
pub open spec fn create_refusal(config: Config, spec: AgentSpecView) -> Option<AgentErrorView> {
    if config.agents@.contains_key(spec.alias) {
        Some(AgentErrorView::AlreadyExists { alias: spec.alias })
    } else if !config.risk_profiles@.contains(spec.risk_profile) {
        Some(AgentErrorView::UnknownRiskProfile { profile: spec.risk_profile })
    } else {
        None
    }
}

/// A new agent whose workspace is to be made.
#[derive(Debug)]
pub struct CreateWorkspace {
    pub alias: String,
    pub workspace_dir: String,
    pub agent: AliasedAgentConfig,
}

/// A new agent whose workspace is made and is to get its first files.
#[derive(Debug)]
pub struct CreateSeed {
    pub alias: String,
    pub workspace_dir: String,
    pub agent: AliasedAgentConfig,
}

/// A new agent that is in the configuration, which is to be saved.
#[derive(Debug)]
pub struct CreateSave {
    pub workspace_dir: String,
}

/// Begins to create an agent whose workspace is to be at `workspace_dir`.
pub fn create_agent(config: &Config, spec: AgentSpec, workspace_dir: String) -> (out: Result<
    CreateWorkspace,
    AgentError,
>)
    ensures
        match out {
            Ok(step) => {
                &&& create_refusal(*config, spec@) is None
                &&& step.alias@ == spec@.alias
                &&& step.workspace_dir@ == workspace_dir@
                &&& step.agent@ == agent_block(spec@)
                &&& step.agent.risk_profile@ == spec.risk_profile@
                &&& step.agent.channels@.len() == 0
                &&& spec.model_provider is Some ==> step.agent.model_provider@
                    == spec.model_provider->0@
                &&& spec.memory_backend is Some ==> step.agent.memory_backend
                    == spec.memory_backend->0
                &&& spec.memory_backend is None ==> step.agent.memory_backend is Sqlite
            },
            Err(e) => create_refusal(*config, spec@) == Some(e@),
        },
{
    if config.agents.contains_key(spec.alias.as_str()) {
        return Err(AgentError::AlreadyExists { alias: spec.alias });
    }
    if !config.risk_profiles.contains(spec.risk_profile.as_str()) {
        return Err(AgentError::UnknownRiskProfile { profile: spec.risk_profile });
    }
    let model_provider: String = match spec.model_provider {
        Some(provider) => provider,
        None => {
            let none = String::new();
            proof {
                assert(none@ =~= Seq::<char>::empty());
            }
            none
        },
    };
    let memory_backend: MemoryBackendKind = match spec.memory_backend {
        Some(backend) => backend,
        None => MemoryBackendKind::Sqlite,
    };
    let agent = AliasedAgentConfig {
        risk_profile: spec.risk_profile,
        model_provider,
        memory_backend,
        channels: Vec::new(),
    };
    proof {
        assert(texts(agent.channels@) =~= Seq::<Seq<char>>::empty());
    }
    Ok(CreateWorkspace { alias: spec.alias, workspace_dir, agent })
}

impl CreateWorkspace {
    /// Goes on once the workspace was made, or could not be.
    pub fn made(self, failure: Option<String>) -> (out: Result<CreateSeed, AgentError>)
        ensures
            match out {
                Ok(step) => {
                    &&& failure is None
                    &&& step.alias@ == self.alias@
                    &&& step.workspace_dir@ == self.workspace_dir@
                    &&& step.agent == self.agent
                },
                Err(e) => failure is Some && e@ == (AgentErrorView::WorkspaceNotMade {
                    dir: self.workspace_dir@,
                    cause: failure->0@,
                }),
            },
    {
        match failure {
            None => Ok(
                CreateSeed {
                    alias: self.alias,
                    workspace_dir: self.workspace_dir,
                    agent: self.agent,
                },
            ),
            Some(cause) => Err(AgentError::WorkspaceNotMade { dir: self.workspace_dir, cause }),
        }
    }
}

impl CreateSeed {
    /// Goes on once the first files were written, or could not be: the agent
    /// is put into the configuration, or the configuration stays as it is.
    pub fn seeded(self, config: &mut Config, failure: Option<String>) -> (out: Result<
        CreateSave,
        AgentError,
    >)
        requires
            old(config).wf(),
        ensures
            final(config).wf(),
            final(config).peer_groups == old(config).peer_groups,
            final(config).skill_bundles == old(config).skill_bundles,
            final(config).risk_profiles == old(config).risk_profiles,
            match out {
                Ok(step) => {
                    &&& failure is None
                    &&& step.workspace_dir@ == self.workspace_dir@
                    &&& final(config).agents@ == old(config).agents@.insert(self.alias@, self.agent)
                },
                Err(e) => {
                    &&& failure is Some
                    &&& final(config).agents == old(config).agents
                    &&& e@ == (AgentErrorView::WorkspaceNotSeeded {
                        dir: self.workspace_dir@,
                        cause: failure->0@,
                    })
                },
            },
    {
        match failure {
            None => {
                config.agents.insert(self.alias, self.agent);
                Ok(CreateSave { workspace_dir: self.workspace_dir })
            },
            Some(cause) => Err(AgentError::WorkspaceNotSeeded { dir: self.workspace_dir, cause }),
        }
    }
}

impl CreateSave {
    /// The workspace of the new agent, once the configuration was saved, or
    /// why it could not be.
    pub fn saved(self, failure: Option<String>) -> (out: Result<String, AgentError>)
        ensures
            match out {
                Ok(dir) => failure is None && dir@ == self.workspace_dir@,
                Err(e) => failure is Some && e@ == (AgentErrorView::ConfigNotSaved {
                    cause: failure->0@,
                }),
            },
    {
        match failure {
            None => Ok(self.workspace_dir),
            Some(cause) => Err(AgentError::ConfigNotSaved { cause }),
        }
    }
}

// ---------------------------------------------------------------------------
// Deleting
// ---------------------------------------------------------------------------

/// How an agent is to be deleted.
#[derive(Clone, Copy, PartialEq, Eq, Structural, Debug)]
pub struct DeleteOptions {
    /// Report what would be done, and do nothing.
    pub dry_run: bool,
    /// Delete the agent though it has running sessions.
    pub force_active_sessions: bool,
}

impl Default for DeleteOptions {
    fn default() -> (out: Self)
        ensures
            !out.dry_run,
            !out.force_active_sessions,
    {
        DeleteOptions { dry_run: false, force_active_sessions: false }
    }
}

/// What deleting an agent did, or would do.
#[derive(Debug)]
pub struct DeleteReport {
    /// The workspace that goes.
    pub workspace_dir: String,
    /// The peer groups that the agent leaves.
    pub peer_group_memberships: Vec<String>,
    /// Nothing was done.
    pub dry_run: bool,
}

/// What deleting an agent did, with texts as sequences.
pub struct DeleteReportView {
    pub workspace_dir: Seq<char>,
    pub peer_group_memberships: Seq<Seq<char>>,
    pub dry_run: bool,
}

impl View for DeleteReport {
    type V = DeleteReportView;

    open spec fn view(&self) -> DeleteReportView {
        DeleteReportView {
            workspace_dir: self.workspace_dir@,
            peer_group_memberships: texts(self.peer_group_memberships@),
            dry_run: self.dry_run,
        }
    }
}

/// `names` without `name`.
pub open spec fn without(names: Seq<Seq<char>>, name: Seq<char>) -> Seq<Seq<char>>
    decreases names.len(),
{
    if names.len() == 0 {
        Seq::empty()
    } else if names.last() == name {
        without(names.drop_last(), name)
    } else {
        without(names.drop_last(), name).push(names.last())
    }
}

/// The group without the agent `alias`.
pub open spec fn left_by(group: PeerGroupConfigView, alias: Seq<char>) -> PeerGroupConfigView {
    PeerGroupConfigView { agents: without(group.agents, alias), ..group }
}

/// The names of the groups that the agent `alias` is in, in order.
pub open spec fn memberships(
    groups: Seq<(Seq<char>, PeerGroupConfig)>,
    alias: Seq<char>,
) -> Seq<Seq<char>>
    decreases groups.len(),
{
    if groups.len() == 0 {
        Seq::empty()
    } else if groups.last().1@.agents.contains(alias) {
        memberships(groups.drop_last(), alias).push(groups.last().0)
    } else {
        memberships(groups.drop_last(), alias)
    }
}

/// `after` is the group `before` without the agent `alias`.
pub open spec fn group_left(
    before: (Seq<char>, PeerGroupConfig),
    after: (Seq<char>, PeerGroupConfig),
    alias: Seq<char>,
) -> bool {
    after.0 == before.0 && after.1@ == left_by(before.1@, alias)
}

/// `after` holds the groups of `before`, each without the agent `alias`.
pub open spec fn groups_left(
    before: Seq<(Seq<char>, PeerGroupConfig)>,
    after: Seq<(Seq<char>, PeerGroupConfig)>,
    alias: Seq<char>,
) -> bool {
    &&& after.len() == before.len()
    &&& forall|i: int|
        0 <= i < before.len() ==> #[trigger] group_left(before[i], after[i], alias)
}

/// Why an agent cannot be deleted, if it cannot: there is none, or it has
/// running sessions and nobody insists. What a deletion would do can be asked
/// at any time.
pub open spec fn delete_refusal(
    config: Config,
    alias: Seq<char>,
    opts: DeleteOptions,
    active: nat,
) -> Option<AgentErrorView> {
    if !config.agents@.contains_key(alias) {
        Some(AgentErrorView::NotConfigured { alias })
    } else if !opts.dry_run && active > 0 && !opts.force_active_sessions {
        Some(AgentErrorView::ActiveSessions { alias, active: active as usize })
    } else {
        None
    }
}

/// The report on the deletion of an agent.
pub open spec fn delete_report(
    config: Config,
    alias: Seq<char>,
    opts: DeleteOptions,
    workspace_dir: Seq<char>,
) -> DeleteReportView {
    DeleteReportView {
        workspace_dir,
        peer_group_memberships: memberships(config.peer_groups.entries(), alias),
        dry_run: opts.dry_run,
    }
}

/// Where a deletion stands.
#[derive(Debug)]
pub enum DeleteStep {
    /// At its end: nothing was to be done.
    Done(DeleteReport),
    /// The agent is out of the configuration, which is to be saved.
    Save(DeleteSave),
}

/// A deletion whose configuration is to be saved.
#[derive(Debug)]
pub struct DeleteSave {
    pub report: DeleteReport,
}

/// A deletion whose configuration is saved, and whose workspace is to be
/// removed if it is there.
#[derive(Debug)]
pub struct DeleteRemove {
    pub report: DeleteReport,
}

/// The positions of the groups that the agent is in, and their names.
fn memberships_of(groups: &crate::alias::AliasMap<PeerGroupConfig>, alias: &str) -> (out: Vec<
    String,
>)
    ensures
        texts(out@) == memberships(groups.entries(), alias@),
{
    let ghost all = groups.entries();
    let mut out: Vec<String> = Vec::new();
    let mut i: usize = 0;
    proof {
        assert(all.take(0) =~= Seq::<(Seq<char>, PeerGroupConfig)>::empty());
        assert(texts(out@) =~= Seq::<Seq<char>>::empty());
    }
    while i < groups.len()
        invariant
            i <= all.len(),
            all == groups.entries(),
            texts(out@) == memberships(all.take(i as int), alias@),
        decreases all.len() - i,
    {
        let ghost upto = all.take(i + 1);
        let ghost before = out@;
        proof {
            assert(upto.drop_last() =~= all.take(i as int));
            assert(upto.last() == all[i as int]);
        }
        if lists(&groups.value_at(i).agents, alias) {
            out.push(groups.alias_at(i).clone());
            proof {
                assert(texts(out@) =~= texts(before).push(all[i as int].0));
            }
        }
        i = i + 1;
    }
    proof {
        assert(all.take(all.len() as int) =~= all);
    }
    out
}

/// Whether `name` stands in `names`.
fn lists(names: &Vec<String>, name: &str) -> (found: bool)
    ensures
        found == texts(names@).contains(name@),
{
    let mut i: usize = 0;
    while i < names.len()
        invariant
            i <= names@.len(),
            forall|j: int| 0 <= j < i ==> texts(names@)[j] != name@,
        decreases names@.len() - i,
    {
        if same_text(names[i].as_str(), name) {
            proof {
                assert(texts(names@)[i as int] == name@);
            }
            return true;
        }
        i = i + 1;
    }
    false
}

/// `names` without `name`.
fn without_name(names: &Vec<String>, name: &str) -> (out: Vec<String>)
    ensures
        texts(out@) == without(texts(names@), name@),
{
    let ghost all = texts(names@);
    let mut out: Vec<String> = Vec::new();
    let mut i: usize = 0;
    proof {
        assert(all.take(0) =~= Seq::<Seq<char>>::empty());
        assert(texts(out@) =~= Seq::<Seq<char>>::empty());
    }
    while i < names.len()
        invariant
            i <= names@.len(),
            all == texts(names@),
            texts(out@) == without(all.take(i as int), name@),
        decreases names@.len() - i,
    {
        let ghost upto = all.take(i + 1);
        let ghost before = out@;
        proof {
            assert(upto.drop_last() =~= all.take(i as int));
            assert(upto.last() == names@[i as int]@);
        }
        if !same_text(names[i].as_str(), name) {
            out.push(names[i].clone());
            proof {
                assert(texts(out@) =~= texts(before).push(names@[i as int]@));
            }
        }
        i = i + 1;
    }
    proof {
        assert(all.take(all.len() as int) =~= all);
    }
    out
}

/// Without a name that does not stand in it, a list stays as it is.
proof fn lemma_without_absent(names: Seq<Seq<char>>, name: Seq<char>)
    requires
        !names.contains(name),
    ensures
        without(names, name) == names,
    decreases names.len(),
{
    if names.len() > 0 {
        let init = names.drop_last();
        assert(names.contains(names[names.len() - 1]));
        assert forall|i: int| 0 <= i < init.len() implies init[i] != name by {
            assert(names.contains(names[i]));
        }
        lemma_without_absent(init, name);
        assert(init.push(names.last()) =~= names);
    }
}

/// Takes the agent `alias` out of every group.
fn leave_groups(groups: &mut crate::alias::AliasMap<PeerGroupConfig>, alias: &str)
    requires
        old(groups).wf(),
    ensures
        final(groups).wf(),
        groups_left(old(groups).entries(), final(groups).entries(), alias@),
{
    let ghost before = groups.entries();
    let n: usize = groups.len();
    let mut i: usize = 0;
    while i < n
        invariant
            n == before.len(),
            i <= n,
            groups.wf(),
            groups.entries().len() == before.len(),
            forall|k: int|
                0 <= k < i ==> #[trigger] group_left(before[k], groups.entries()[k], alias@),
            forall|k: int| i <= k < n ==> #[trigger] groups.entries()[k] == before[k],
        decreases n - i,
    {
        let ghost mid = groups.entries();
        assert(mid[i as int] == before[i as int]);
        let group: &PeerGroupConfig = groups.value_at(i);
        if lists(&group.agents, alias) {
            let left = group.with_agents(without_name(&group.agents, alias));
            groups.set_value(i, left);
        } else {
            proof {
                lemma_without_absent(group@.agents, alias@);
                assert(left_by(group@, alias@) == group@);
            }
        }
        proof {
            let now = groups.entries();
            assert(group_left(before[i as int], now[i as int], alias@));
            assert forall|k: int| 0 <= k < i implies #[trigger] group_left(
                before[k],
                now[k],
                alias@,
            ) by {
                assert(group_left(before[k], mid[k], alias@));
                assert(now[k] == mid[k]);
            }
        }
        i = i + 1;
    }
}

/// Begins to delete the agent `alias`, whose workspace is `workspace_dir`:
/// unless it is a dry run, the agent goes out of the configuration and out of
/// every peer group.
pub fn delete_agent(
    config: &mut Config,
    alias: &str,
    opts: DeleteOptions,
    workspace_dir: String,
    sessions: &SessionRegistry,
) -> (out: Result<DeleteStep, AgentError>)
    requires
        old(config).wf(),
        sessions.wf(),
    ensures
        final(config).wf(),
        final(config).skill_bundles == old(config).skill_bundles,
        final(config).risk_profiles == old(config).risk_profiles,
        match out {
            Ok(DeleteStep::Done(report)) => {
                &&& delete_refusal(*old(config), alias@, opts, count_in(sessions@, alias@)) is None
                &&& opts.dry_run
                &&& report@ == delete_report(*old(config), alias@, opts, workspace_dir@)
                &&& *final(config) == *old(config)
            },
            Ok(DeleteStep::Save(step)) => {
                &&& delete_refusal(*old(config), alias@, opts, count_in(sessions@, alias@)) is None
                &&& !opts.dry_run
                &&& step.report@ == delete_report(*old(config), alias@, opts, workspace_dir@)
                &&& final(config).agents@ == old(config).agents@.remove(alias@)
                &&& groups_left(
                    old(config).peer_groups.entries(),
                    final(config).peer_groups.entries(),
                    alias@,
                )
            },
            Err(e) => {
                &&& delete_refusal(*old(config), alias@, opts, count_in(sessions@, alias@)) == Some(
                    e@,
                )
                &&& *final(config) == *old(config)
            },
        },
{
    if !config.agents.contains_key(alias) {
        return Err(AgentError::NotConfigured { alias: alias.to_owned() });
    }
    let peer_group_memberships = memberships_of(&config.peer_groups, alias);
    let report = DeleteReport { workspace_dir, peer_group_memberships, dry_run: opts.dry_run };
    if opts.dry_run {
        return Ok(DeleteStep::Done(report));
    }
    let active: usize = active_sessions_for(sessions, alias);
    if active > 0 && !opts.force_active_sessions {
        return Err(AgentError::ActiveSessions { alias: alias.to_owned(), active });
    }
    config.agents.remove(alias);
    leave_groups(&mut config.peer_groups, alias);
    Ok(DeleteStep::Save(DeleteSave { report }))
}

impl DeleteSave {
    /// Goes on once the configuration was saved, or could not be.
    pub fn saved(self, failure: Option<String>) -> (out: Result<DeleteRemove, AgentError>)
        ensures
            match out {
                Ok(step) => failure is None && step.report == self.report,
                Err(e) => failure is Some && e@ == (AgentErrorView::ConfigNotSaved {
                    cause: failure->0@,
                }),
            },
    {
        match failure {
            None => Ok(DeleteRemove { report: self.report }),
            Some(cause) => Err(AgentError::ConfigNotSaved { cause }),
        }
    }
}

impl DeleteRemove {
    /// The report, once the workspace was removed or was not there, or why it
    /// could not be removed.
    pub fn removed(self, failure: Option<String>) -> (out: Result<DeleteReport, AgentError>)
        ensures
            match out {
                Ok(report) => failure is None && report == self.report,
                Err(e) => failure is Some && e@ == (AgentErrorView::WorkspaceNotRemoved {
                    dir: self.report.workspace_dir@,
                    cause: failure->0@,
                }),
            },
    {
        match failure {
            None => Ok(self.report),
            Some(cause) => Err(
                AgentError::WorkspaceNotRemoved { dir: self.report.workspace_dir, cause },
            ),
        }
    }
}

// ---------------------------------------------------------------------------
// Listing
// ---------------------------------------------------------------------------

/// An agent as the list shows it.
#[derive(Debug)]
pub struct AgentSummary {
    pub alias: String,
    pub risk_profile: String,
    pub model_provider: String,
    pub memory_backend: MemoryBackendKind,
    pub channels: Vec<String>,
}

/// An agent as the list shows it, with texts as sequences.
pub struct AgentSummaryView {
    pub alias: Seq<char>,
    pub risk_profile: Seq<char>,
    pub model_provider: Seq<char>,
    pub memory_backend: MemoryBackendKindView,
    pub channels: Seq<Seq<char>>,
}

impl View for AgentSummary {
    type V = AgentSummaryView;

    open spec fn view(&self) -> AgentSummaryView {
        AgentSummaryView {
            alias: self.alias@,
            risk_profile: self.risk_profile@,
            model_provider: self.model_provider@,
            memory_backend: self.memory_backend@,
            channels: texts(self.channels@),
        }
    }
}

/// The summaries with texts as sequences.
pub open spec fn summary_views(rows: Seq<AgentSummary>) -> Seq<AgentSummaryView> {
    Seq::new(rows.len(), |i: int| rows[i]@)
}

/// What the list shows of an agent.
pub open spec fn summary(alias: Seq<char>, agent: AliasedAgentConfigView) -> AgentSummaryView {
    AgentSummaryView {
        alias,
        risk_profile: agent.risk_profile,
        model_provider: agent.model_provider,
        memory_backend: agent.memory_backend,
        channels: agent.channels,
    }
}

/// What the list shows of the agents, in the order of the configuration.
pub open spec fn summaries(entries: Seq<(Seq<char>, AliasedAgentConfig)>) -> Seq<
    AgentSummaryView,
> {
    Seq::new(entries.len(), |i: int| summary(entries[i].0, entries[i].1@))
}

/// The aliases of the entries.
pub open spec fn aliases<T>(entries: Seq<(Seq<char>, T)>) -> Seq<Seq<char>> {
    Seq::new(entries.len(), |i: int| entries[i].0)
}

/// The list of agents: one summary for each, sorted by alias.
pub open spec fn agent_list(entries: Seq<(Seq<char>, AliasedAgentConfig)>) -> Seq<
    AgentSummaryView,
> {
    arranged(summaries(entries), sorted_order(aliases(entries)))
}

/// The list of agents: one summary for each, sorted by alias.
#[must_use]
pub fn list_agents(config: &Config) -> (out: Vec<AgentSummary>)
    ensures
        summary_views(out@) == agent_list(config.agents.entries()),
{
    let ghost entries = config.agents.entries();
    let mut keys: Vec<String> = Vec::new();
    let mut i: usize = 0;
    proof {
        assert(texts(keys@) =~= aliases(entries).take(0));
    }
    while i < config.agents.len()
        invariant
            i <= entries.len(),
            entries == config.agents.entries(),
            texts(keys@) == aliases(entries).take(i as int),
        decreases entries.len() - i,
    {
        let ghost before = keys@;
        keys.push(config.agents.alias_at(i).clone());
        proof {
            assert(texts(keys@) =~= texts(before).push(entries[i as int].0));
            assert(aliases(entries).take(i + 1) =~= aliases(entries).take(i as int).push(
                entries[i as int].0,
            ));
        }
        i = i + 1;
    }
    proof {
        assert(aliases(entries).take(entries.len() as int) =~= aliases(entries));
    }
    let order = sort_order(&keys);
    let mut out: Vec<AgentSummary> = Vec::new();
    let mut k: usize = 0;
    let ghost want = agent_list(entries);
    proof {
        assert(summary_views(out@) =~= want.take(0));
    }
    while k < order.len()
        invariant
            k <= order@.len(),
            entries == config.agents.entries(),
            is_sort_order(order@, aliases(entries)),
            want == arranged(summaries(entries), order@),
            summary_views(out@) == want.take(k as int),
        decreases order@.len() - k,
    {
        let ghost before = out@;
        let at: usize = order[k];
        let alias: &String = config.agents.alias_at(at);
        let agent: &AliasedAgentConfig = config.agents.value_at(at);
        let row = AgentSummary {
            alias: alias.clone(),
            risk_profile: agent.risk_profile.clone(),
            model_provider: agent.model_provider.clone(),
            memory_backend: agent.memory_backend.copy(),
            channels: copy_strings(&agent.channels),
        };
        out.push(row);
        proof {
            assert(row@ == summary(entries[at as int].0, entries[at as int].1@));
            assert(summary_views(out@) =~= summary_views(before).push(row@));
            assert(want.take(k + 1) =~= want.take(k as int).push(row@));
        }
        k = k + 1;
    }
    proof {
        assert(want.take(order@.len() as int) =~= want);
    }
    out
}

// ---------------------------------------------------------------------------
// Laws
// ---------------------------------------------------------------------------

/// Deleting an agent that was just created leaves the agents as they were.
pub proof fn law_delete_undoes_create(
    config: Config,
    spec: AgentSpecView,
    agent: AliasedAgentConfig,
)
    requires
        create_refusal(config, spec) is None,
    ensures
        config.agents@.insert(spec.alias, agent).remove(spec.alias) == config.agents@,
{
    assert(config.agents@.insert(spec.alias, agent).remove(spec.alias) =~= config.agents@);
}

/// Creating an agent overwrites no other: every agent that was there is there
/// as it was.
pub proof fn law_create_keeps_other_agents(
    config: Config,
    spec: AgentSpecView,
    agent: AliasedAgentConfig,
    other: Seq<char>,
)
    requires
        create_refusal(config, spec) is None,
        config.agents@.contains_key(other),
    ensures
        config.agents@.insert(spec.alias, agent).contains_key(other),
        config.agents@.insert(spec.alias, agent)[other] == config.agents@[other],
{
}

/// An agent that was created cannot be created again.
pub proof fn law_created_agent_is_not_created_again(
    before: Config,
    after: Config,
    spec: AgentSpecView,
    again: AgentSpecView,
    agent: AliasedAgentConfig,
)
    requires
        after.agents@ == before.agents@.insert(spec.alias, agent),
        again.alias == spec.alias,
    ensures
        create_refusal(after, again) == Some(
            (AgentErrorView::AlreadyExists { alias: spec.alias }),
        ),
{
}

/// Neither running sessions nor the wish to override them change the answer
/// to a dry run.
pub proof fn law_dry_run_ignores_sessions(
    config: Config,
    alias: Seq<char>,
    a: DeleteOptions,
    b: DeleteOptions,
    active: nat,
    other: nat,
)
    requires
        a.dry_run,
        b.dry_run,
    ensures
        delete_refusal(config, alias, a, active) == delete_refusal(config, alias, b, other),
{
}

proof fn lemma_without(names: Seq<Seq<char>>, name: Seq<char>, other: Seq<char>)
    ensures
        !without(names, name).contains(name),
        other != name ==> (without(names, name).contains(other) <==> names.contains(other)),
    decreases names.len(),
{
    if names.len() > 0 {
        let init = names.drop_last();
        let rest = without(init, name);
        let out = without(names, name);
        lemma_without(init, name, other);
        assert forall|k: int| 0 <= k < out.len() implies out[k] != name by {
            if k < rest.len() {
                assert(rest.contains(rest[k]));
            }
        }
        if other != name {
            if out.contains(other) {
                let k = choose|k: int| 0 <= k < out.len() && out[k] == other;
                if k < rest.len() {
                    assert(rest.contains(rest[k]));
                    let j = choose|j: int| 0 <= j < init.len() && init[j] == other;
                    assert(names[j] == other);
                } else {
                    assert(names[names.len() - 1] == other);
                }
            }
            if names.contains(other) {
                let j = choose|j: int| 0 <= j < names.len() && names[j] == other;
                if j < init.len() {
                    assert(init[j] == other);
                    let k = choose|k: int| 0 <= k < rest.len() && rest[k] == other;
                    assert(out[k] == other);
                } else {
                    assert(out[out.len() - 1] == other);
                }
            }
        }
    }
}

/// Once an agent is deleted, no peer group speaks of it: the configuration
/// holds no member that is not there. Every other member stays.
pub proof fn law_deleted_agent_is_in_no_group(
    before: Seq<(Seq<char>, PeerGroupConfig)>,
    after: Seq<(Seq<char>, PeerGroupConfig)>,
    alias: Seq<char>,
    i: int,
    other: Seq<char>,
)
    requires
        groups_left(before, after, alias),
        0 <= i < before.len(),
        other != alias,
    ensures
        !after[i].1@.agents.contains(alias),
        after[i].1@.agents.contains(other) <==> before[i].1@.agents.contains(other),
{
    assert(group_left(before[i], after[i], alias));
    lemma_without(before[i].1@.agents, alias, other);
}

/// Every member of every group is a configured agent.
pub open spec fn members_exist(
    groups: Seq<(Seq<char>, PeerGroupConfig)>,
    agents: Map<Seq<char>, AliasedAgentConfig>,
) -> bool {
    forall|i: int, member: Seq<char>|
        0 <= i < groups.len() && #[trigger] groups[i].1@.agents.contains(member)
            ==> agents.contains_key(member)
}

/// Deleting an agent leaves no peer group with a member that is not there.
pub proof fn law_delete_leaves_no_dangling_member(
    before: Seq<(Seq<char>, PeerGroupConfig)>,
    after: Seq<(Seq<char>, PeerGroupConfig)>,
    agents: Map<Seq<char>, AliasedAgentConfig>,
    alias: Seq<char>,
)
    requires
        members_exist(before, agents),
        groups_left(before, after, alias),
    ensures
        members_exist(after, agents.remove(alias)),
{
    assert forall|i: int, member: Seq<char>|
        0 <= i < after.len() && #[trigger] after[i].1@.agents.contains(
            member,
        ) implies agents.remove(alias).contains_key(member) by {
        assert(group_left(before[i], after[i], alias));
        lemma_without(before[i].1@.agents, alias, member);
        assert(before[i].1@.agents.contains(member));
    }
}

/// While an agent has a running session, it is not deleted unless that is
/// forced or only asked for; without one it is not kept for that.
pub proof fn law_running_session_holds_delete_back(
    config: Config,
    alias: Seq<char>,
    opts: DeleteOptions,
    counts: Map<Seq<char>, usize>,
)
    requires
        config.agents@.contains_key(alias),
        count_in(counts, alias) < usize::MAX,
        !opts.dry_run,
        !opts.force_active_sessions,
    ensures
        delete_refusal(config, alias, opts, count_in(registered(counts, alias), alias)) == Some(
            (AgentErrorView::ActiveSessions {
                alias,
                active: (count_in(counts, alias) + 1) as usize,
            }),
        ),
        count_in(counts, alias) == 0 ==> delete_refusal(
            config,
            alias,
            opts,
            count_in(released(registered(counts, alias), alias), alias),
        ) is None,
{
}

/// A peer group that the agent was not in stays as it is.
pub proof fn law_other_groups_stay(
    before: Seq<(Seq<char>, PeerGroupConfig)>,
    after: Seq<(Seq<char>, PeerGroupConfig)>,
    alias: Seq<char>,
    i: int,
)
    requires
        groups_left(before, after, alias),
        0 <= i < before.len(),
        !before[i].1@.agents.contains(alias),
    ensures
        after[i].1@ == before[i].1@,
{
    assert(group_left(before[i], after[i], alias));
    lemma_without_absent(before[i].1@.agents, alias);
}

/// Seen by name, each peer group is the one it was, without the deleted agent.
pub proof fn law_groups_are_left_by_name(
    before: Seq<(Seq<char>, PeerGroupConfig)>,
    after: Seq<(Seq<char>, PeerGroupConfig)>,
    alias: Seq<char>,
    name: Seq<char>,
)
    requires
        distinct_aliases(before),
        distinct_aliases(after),
        groups_left(before, after, alias),
    ensures
        table(after).contains_key(name) <==> table(before).contains_key(name),
        table(before).contains_key(name) ==> table(after)[name]@ == left_by(
            table(before)[name]@,
            alias,
        ),
{
    if table(before).contains_key(name) {
        let i = choose|i: int| entry_is(before, name, i);
        assert(group_left(before[i], after[i], alias));
        lemma_table_entry(before, i);
        lemma_table_entry(after, i);
    }
    if table(after).contains_key(name) {
        let i = choose|i: int| entry_is(after, name, i);
        assert(group_left(before[i], after[i], alias));
        lemma_table_entry(before, i);
    }
}

/// The report names exactly the groups that the agent is in.
pub proof fn law_report_names_the_groups(
    groups: Seq<(Seq<char>, PeerGroupConfig)>,
    alias: Seq<char>,
    name: Seq<char>,
)
    ensures
        memberships(groups, alias).contains(name) <==> exists|i: int|
            0 <= i < groups.len() && #[trigger] groups[i].0 == name
                && groups[i].1@.agents.contains(alias),
    decreases groups.len(),
{
    if groups.len() > 0 {
        let init = groups.drop_last();
        let rest = memberships(init, alias);
        let out = memberships(groups, alias);
        law_report_names_the_groups(init, alias, name);
        if out.contains(name) {
            let k = choose|k: int| 0 <= k < out.len() && out[k] == name;
            if k < rest.len() {
                assert(rest.contains(rest[k]));
                let i = choose|i: int|
                    0 <= i < init.len() && #[trigger] init[i].0 == name
                        && init[i].1@.agents.contains(alias);
                assert(groups[i] == init[i]);
            } else {
                assert(groups[groups.len() - 1].0 == name);
            }
        }
        if exists|i: int|
            0 <= i < groups.len() && #[trigger] groups[i].0 == name
                && groups[i].1@.agents.contains(alias) {
            let i = choose|i: int|
                0 <= i < groups.len() && #[trigger] groups[i].0 == name
                    && groups[i].1@.agents.contains(alias);
            if i < init.len() {
                assert(init[i].0 == name);
                let k = choose|k: int| 0 <= k < rest.len() && rest[k] == name;
                assert(out[k] == name);
            } else {
                assert(out[out.len() - 1] == name);
            }
        }
    }
}

/// The list comes sorted by alias.
pub proof fn law_agents_come_sorted(
    entries: Seq<(Seq<char>, AliasedAgentConfig)>,
    i: int,
    j: int,
)
    requires
        entries.len() <= usize::MAX,
        0 <= i <= j < agent_list(entries).len(),
    ensures
        text_le(agent_list(entries)[i].alias, agent_list(entries)[j].alias),
{
    let keys = aliases(entries);
    lemma_sort_order_exists(keys);
    law_sort_order_is_sorted(sorted_order(keys), keys, i, j);
}

/// The list shows every agent of the configuration, and no other.
pub proof fn law_every_agent_is_listed(
    entries: Seq<(Seq<char>, AliasedAgentConfig)>,
    row: AgentSummaryView,
)
    requires
        entries.len() <= usize::MAX,
    ensures
        agent_list(entries).len() == entries.len(),
        agent_list(entries).contains(row) <==> exists|i: int|
            0 <= i < entries.len() && row == summary(#[trigger] entries[i].0, entries[i].1@),
{
    let keys = aliases(entries);
    let rows = summaries(entries);
    lemma_sort_order_exists(keys);
    lemma_arranged_has_same_items(rows, sorted_order(keys), keys, row);
    if rows.contains(row) {
        let i = choose|i: int| 0 <= i < rows.len() && rows[i] == row;
        assert(row == summary(entries[i].0, entries[i].1@));
    }
    if exists|i: int|
        0 <= i < entries.len() && row == summary(#[trigger] entries[i].0, entries[i].1@) {
        let i = choose|i: int|
            0 <= i < entries.len() && row == summary(#[trigger] entries[i].0, entries[i].1@);
        assert(rows[i] == row);
    }
}

/// A new agent is bound to the risk profile and the model provider that were
/// asked for, remembers with SQLite unless another backend was asked for, and
/// has no channels yet.
pub proof fn law_new_agent_is_as_asked(spec: AgentSpecView)
    ensures
        agent_block(spec).risk_profile == spec.risk_profile,
        spec.model_provider is Some ==> agent_block(spec).model_provider == spec.model_provider->0,
        spec.model_provider is None ==> agent_block(spec).model_provider.len() == 0,
        spec.memory_backend is Some ==> agent_block(spec).memory_backend == spec.memory_backend->0,
        spec.memory_backend is None ==> agent_block(spec).memory_backend is Sqlite,
        agent_block(spec).channels.len() == 0,
{
}

/// An agent can be created exactly where its alias is free and its risk profile
/// is configured; a taken alias is told before an unknown profile.
pub proof fn law_create_is_refused_when(config: Config, spec: AgentSpecView)
    ensures
        match create_refusal(config, spec) {
            None => !config.agents@.contains_key(spec.alias) && config.risk_profiles@.contains(
                spec.risk_profile,
            ),
            Some(AgentErrorView::AlreadyExists { alias }) => config.agents@.contains_key(alias)
                && alias == spec.alias,
            Some(AgentErrorView::UnknownRiskProfile { profile }) => {
                &&& !config.agents@.contains_key(spec.alias)
                &&& !config.risk_profiles@.contains(profile)
                &&& profile == spec.risk_profile
            },
            Some(_) => false,
        },
{
}

/// An agent can be deleted exactly where it is configured and, unless nothing
/// is to be done or it is forced, has no session running.
pub proof fn law_delete_is_refused_when(
    config: Config,
    alias: Seq<char>,
    opts: DeleteOptions,
    active: nat,
)
    requires
        active <= usize::MAX,
    ensures
        match delete_refusal(config, alias, opts, active) {
            None => config.agents@.contains_key(alias) && (opts.dry_run || active == 0
                || opts.force_active_sessions),
            Some(AgentErrorView::NotConfigured { alias: named }) => {
                &&& named == alias
                &&& !config.agents@.contains_key(alias)
            },
            Some(AgentErrorView::ActiveSessions { alias: named, active: told }) => {
                &&& named == alias
                &&& told == active
                &&& config.agents@.contains_key(alias)
                &&& active > 0
                &&& !opts.dry_run
                &&& !opts.force_active_sessions
            },
            Some(_) => false,
        },
{
}

/// The report tells the workspace and whether anything was done, and names the
/// groups in the order of the configuration, each as often as it stands there.
pub proof fn law_report_tells(
    config: Config,
    alias: Seq<char>,
    opts: DeleteOptions,
    workspace_dir: Seq<char>,
    groups: Seq<(Seq<char>, PeerGroupConfig)>,
    group: (Seq<char>, PeerGroupConfig),
)
    ensures
        delete_report(config, alias, opts, workspace_dir).workspace_dir == workspace_dir,
        delete_report(config, alias, opts, workspace_dir).dry_run == opts.dry_run,
        delete_report(config, alias, opts, workspace_dir).peer_group_memberships == memberships(
            config.peer_groups.entries(),
            alias,
        ),
        memberships(Seq::empty(), alias).len() == 0,
        group.1@.agents.contains(alias) ==> memberships(groups.push(group), alias) == memberships(
            groups,
            alias,
        ).push(group.0),
        !group.1@.agents.contains(alias) ==> memberships(groups.push(group), alias) == memberships(
            groups,
            alias,
        ),
{
    assert(groups.push(group).drop_last() =~= groups);
}

/// A group that an agent leaves keeps its name, its channel, its peers and whom
/// it ignores, and of its agents all the others, in their order.
pub proof fn law_group_loses_one_agent_alone(
    before: Seq<(Seq<char>, PeerGroupConfig)>,
    after: Seq<(Seq<char>, PeerGroupConfig)>,
    alias: Seq<char>,
    i: int,
)
    requires
        groups_left(before, after, alias),
        0 <= i < before.len(),
    ensures
        after.len() == before.len(),
        after[i].0 == before[i].0,
        after[i].1@.channel == before[i].1@.channel,
        after[i].1@.external_peers == before[i].1@.external_peers,
        after[i].1@.ignore == before[i].1@.ignore,
        after[i].1@.agents == before[i].1@.agents.filter(|name: Seq<char>| name != alias),
{
    assert(group_left(before[i], after[i], alias));
    lemma_without_is_filter(before[i].1@.agents, alias);
}

proof fn lemma_without_is_filter(names: Seq<Seq<char>>, name: Seq<char>)
    ensures
        without(names, name) == names.filter(|other: Seq<char>| other != name),
    decreases names.len(),
{
    reveal(Seq::filter);
    if names.len() > 0 {
        lemma_without_is_filter(names.drop_last(), name);
    }
}

/// The list shows each agent with its alias, its risk profile, its model
/// provider, its memory backend and its channels.
pub proof fn law_listed_agent_is_the_one_configured(
    entries: Seq<(Seq<char>, AliasedAgentConfig)>,
    i: int,
)
    requires
        entries.len() <= usize::MAX,
        0 <= i < entries.len(),
    ensures
        exists|k: int|
            {
                &&& 0 <= k < agent_list(entries).len()
                &&& #[trigger] agent_list(entries)[k].alias == entries[i].0
                &&& agent_list(entries)[k].risk_profile == entries[i].1.risk_profile@
                &&& agent_list(entries)[k].model_provider == entries[i].1.model_provider@
                &&& agent_list(entries)[k].memory_backend == entries[i].1.memory_backend@
                &&& agent_list(entries)[k].channels == texts(entries[i].1.channels@)
            },
        agent_list(entries).len() == entries.len(),
{
    let row = summary(entries[i].0, entries[i].1@);
    law_every_agent_is_listed(entries, row);
    let k = choose|k: int| 0 <= k < agent_list(entries).len() && agent_list(entries)[k] == row;
    assert(agent_list(entries)[k].alias == entries[i].0);
}

/// What each error says.
pub proof fn law_agent_errors_say(e: AgentErrorView)
    ensures
        match e {
            AgentErrorView::AlreadyExists { alias } => e.text() == "agent "@ + quoted(alias)
                + " already exists; refusing to overwrite"@,
            AgentErrorView::UnknownRiskProfile { profile } => e.text() == "risk_profile "@
                + quoted(profile)
                + " is not configured; create it under [risk_profiles.<alias>] before binding it to an agent"@,
            AgentErrorView::NotConfigured { alias } => e.text() == "agent "@ + quoted(alias)
                + " is not configured"@,
            AgentErrorView::ActiveSessions { alias, active } => e.text() == "agent "@ + quoted(
                alias,
            ) + " has "@ + decimal(active as nat)
                + " active session(s); refuse to delete. Stop the running sessions first, or pass force_active_sessions=true to override (the in-flight agent loop will surface I/O errors when its workspace disappears)."@,
            AgentErrorView::WorkspaceNotMade { dir, .. } => e.text()
                == "failed to create per-agent workspace at "@ + dir,
            AgentErrorView::WorkspaceNotSeeded { dir, .. } => e.text()
                == "failed to seed bootstrap identity files in "@ + dir,
            AgentErrorView::WorkspaceNotRemoved { dir, .. } => e.text()
                == "failed to remove agent workspace at "@ + dir,
            AgentErrorView::ConfigNotSaved { .. } => e.text() == "failed to save config"@,
        },
{
}

} // verus!
