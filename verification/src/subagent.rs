//! Sub-agents: runs under their parent agent's identity, allowed no more than
//! the parent is.

use std::sync::Arc;
use vstd::prelude::*;

use crate::alias::NameSet;
use crate::policy::SecurityPolicy;
use crate::quote::quote;
#[allow(unused_imports)]
use crate::quote::quoted;
#[allow(unused_imports)]
use crate::text::opt_text;

verus! {

/// What a sub-agent is narrowed to. What is not given it has from its parent.
#[derive(Debug)]
pub struct SubAgentOverrides {
    pub policy: Option<SecurityPolicy>,
    /// The agents whose memory it may recall from.
    pub allowed_agent_ids: Option<NameSet>,
}

impl Default for SubAgentOverrides {
    fn default() -> (out: Self)
        ensures
            out.policy is None,
            out.allowed_agent_ids is None,
    {
        SubAgentOverrides { policy: None, allowed_agent_ids: None }
    }
}

/// A sub-agent that may run.
#[derive(Debug)]
pub struct SubAgentContext {
    /// The parent's identity.
    pub agent_id: String,
    pub policy: Arc<SecurityPolicy>,
    /// The agents whose memory it may recall from. The parent itself is always
    /// one of them.
    pub allowed_agent_ids: NameSet,
}

/// The parent of a sub-agent.
#[derive(Debug)]
pub struct SubAgentSpawn {
    pub parent_agent_id: String,
    pub parent_policy: Arc<SecurityPolicy>,
    pub parent_allowed_agent_ids: NameSet,
}

/// Why a sub-agent may not run.
#[derive(Debug)]
pub enum SpawnError {
    /// Its policy allows more than its parent's; `violation` says in what.
    PolicyEscalates { violation: String },
    /// It would recall from an agent that its parent may not recall from.
    UnknownAgent { id: String },
}

/// Why a sub-agent may not run, with texts as sequences.
pub enum SpawnErrorView {
    PolicyEscalates { violation: Seq<char> },
    UnknownAgent { id: Seq<char> },
}

impl View for SpawnError {
    type V = SpawnErrorView;

    open spec fn view(&self) -> SpawnErrorView {
        match *self {
            SpawnError::PolicyEscalates { violation } => SpawnErrorView::PolicyEscalates {
                violation: violation@,
            },
            SpawnError::UnknownAgent { id } => SpawnErrorView::UnknownAgent { id: id@ },
        }
    }
}

impl SpawnErrorView {
    /// What the error says, with `name` for the agent that it speaks of.
    pub open spec fn text_with(self, name: Seq<char>) -> Seq<char> {
        match self {
            SpawnErrorView::PolicyEscalates { violation } =>
            "subagent policy override escalates beyond parent: "@ + violation,
            SpawnErrorView::UnknownAgent { .. } =>
            "subagent allowlist override contains agent_id "@ + name
                + " not present on parent's memory allowlist; SubAgent overrides may only narrow"@,
        }
    }

    /// What the error says.
    pub open spec fn text(self) -> Seq<char> {
        match self {
            SpawnErrorView::PolicyEscalates { .. } => self.text_with(Seq::empty()),
            SpawnErrorView::UnknownAgent { id } => self.text_with(quoted(id)),
        }
    }
}

impl SpawnError {
    /// What the error says, with `name` for the agent that it speaks of.
    pub fn message_with(&self, name: &str) -> (out: String)
        ensures
            out@ == self@.text_with(name@),
    {
        match self {
            SpawnError::PolicyEscalates { violation } => {
                let mut out = "subagent policy override escalates beyond parent: ".to_owned();
                out.append(violation.as_str());
                out
            },
            SpawnError::UnknownAgent { .. } => {
                let mut out = "subagent allowlist override contains agent_id ".to_owned();
                out.append(name);
                out.append(
                    " not present on parent's memory allowlist; SubAgent overrides may only narrow",
                );
                out
            },
        }
    }

    /// What the error says.
    pub fn message(&self) -> (out: String)
        ensures
            out@ == self@.text(),
    {
        let name: String = match self {
            SpawnError::PolicyEscalates { .. } => {
                let none = String::new();
                proof {
                    assert(none@ =~= Seq::<char>::empty());
                }
                none
            },
            SpawnError::UnknownAgent { id } => quote(id.as_str()),
        };
        self.message_with(name.as_str())
    }
}

/// The first of `ids` that is not in `allowed`.
pub open spec fn first_unknown(ids: Seq<Seq<char>>, allowed: Set<Seq<char>>) -> Option<Seq<char>>
    decreases ids.len(),
{
    if ids.len() == 0 {
        None
    } else if allowed.contains(ids[0]) {
        first_unknown(ids.drop_first(), allowed)
    } else {
        Some(ids[0])
    }
}

/// The policy of a sub-agent, where it may run.
pub open spec fn chosen_policy(
    spawn: SubAgentSpawn,
    overrides: SubAgentOverrides,
) -> SecurityPolicy {
    match overrides.policy {
        Some(policy) => policy,
        None => *spawn.parent_policy,
    }
}

/// The agents that a sub-agent may recall from, where it may run.
pub open spec fn chosen_ids(spawn: SubAgentSpawn, overrides: SubAgentOverrides) -> Set<Seq<char>> {
    match overrides.allowed_agent_ids {
        Some(ids) => ids@.insert(spawn.parent_agent_id@),
        None => spawn.parent_allowed_agent_ids@.insert(spawn.parent_agent_id@),
    }
}

/// Why a sub-agent may not run, if it may not: the policy is looked at first.
/// `violation` says in what the policy that it is given goes beyond its
/// parent's; where it is given none, there is nothing to look at.
pub open spec fn spawn_refusal(
    spawn: SubAgentSpawn,
    overrides: SubAgentOverrides,
    violation: Option<Seq<char>>,
) -> Option<SpawnErrorView> {
    let unknown = match overrides.allowed_agent_ids {
        Some(ids) => first_unknown(ids.listed(), spawn.parent_allowed_agent_ids@),
        None => None,
    };
    if overrides.policy is Some && violation is Some {
        Some(SpawnErrorView::PolicyEscalates { violation: violation->0 })
    } else {
        match unknown {
            Some(id) => Some(SpawnErrorView::UnknownAgent { id }),
            None => None,
        }
    }
}

/// The first of `ids` that is not in `allowed`.
fn first_unknown_of(ids: &NameSet, allowed: &NameSet) -> (out: Option<String>)
    ensures
        match out {
            Some(id) => first_unknown(ids.listed(), allowed@) == Some(id@),
            None => first_unknown(ids.listed(), allowed@) is None,
        },
{
    let ghost all = ids.listed();
    let mut i: usize = 0;
    proof {
        assert(all.skip(0) =~= all);
    }
    while i < ids.len()
        invariant
            i <= all.len(),
            all == ids.listed(),
            first_unknown(all, allowed@) == first_unknown(all.skip(i as int), allowed@),
        decreases all.len() - i,
    {
        let id: &String = ids.name_at(i);
        proof {
            assert(all.skip(i as int)[0] == id@);
            assert(all.skip(i as int).drop_first() =~= all.skip(i + 1));
        }
        if !allowed.contains(id.as_str()) {
            return Some(id.clone());
        }
        i = i + 1;
    }
    proof {
        assert(all.skip(i as int).len() == 0);
    }
    None
}

impl SubAgentSpawn {
    /// Each agent that the parent may recall from stands once.
    pub open spec fn wf(&self) -> bool {
        self.parent_allowed_agent_ids.wf()
    }

    /// The sub-agent that the parent may spawn with these overrides; an error
    /// where they would allow it more than the parent is allowed. Whether the
    /// policy among them does so is found out beforehand: `violation` says in
    /// what, if in anything.
    pub fn build(self, overrides: SubAgentOverrides, violation: Option<String>) -> (out: Result<
        SubAgentContext,
        SpawnError,
    >)
        requires
            self.wf(),
            overrides.allowed_agent_ids is Some ==> overrides.allowed_agent_ids->0.wf(),
        ensures
            match out {
                Ok(context) => {
                    &&& spawn_refusal(self, overrides, opt_text(violation)) is None
                    &&& context.agent_id@ == self.parent_agent_id@
                    &&& *context.policy == chosen_policy(self, overrides)
                    &&& overrides.policy is Some ==> *context.policy == overrides.policy->0
                    &&& overrides.policy is None ==> *context.policy == *self.parent_policy
                    &&& context.allowed_agent_ids@ == chosen_ids(self, overrides)
                    &&& overrides.allowed_agent_ids is Some ==> context.allowed_agent_ids@
                        == overrides.allowed_agent_ids->0@.insert(self.parent_agent_id@)
                    &&& overrides.allowed_agent_ids is None ==> context.allowed_agent_ids@
                        == self.parent_allowed_agent_ids@.insert(self.parent_agent_id@)
                    &&& context.allowed_agent_ids.wf()
                },
                Err(e) => spawn_refusal(self, overrides, opt_text(violation)) == Some(e@),
            },
    {
        let policy: Arc<SecurityPolicy> = match overrides.policy {
            Some(child) => match violation {
                Some(violation) => return Err(SpawnError::PolicyEscalates { violation }),
                None => Arc::new(child),
            },
            None => self.parent_policy,
        };
        let mut allowed_agent_ids: NameSet = match overrides.allowed_agent_ids {
            Some(ids) => {
                if let Some(id) = first_unknown_of(&ids, &self.parent_allowed_agent_ids) {
                    return Err(SpawnError::UnknownAgent { id });
                }
                ids
            },
            None => self.parent_allowed_agent_ids,
        };
        allowed_agent_ids.insert(self.parent_agent_id.clone());
        Ok(SubAgentContext { agent_id: self.parent_agent_id, policy, allowed_agent_ids })
    }
}

// ---------------------------------------------------------------------------
// Laws
// ---------------------------------------------------------------------------

proof fn lemma_first_unknown(ids: Seq<Seq<char>>, allowed: Set<Seq<char>>)
    ensures
        first_unknown(ids, allowed) is None <==> ids.to_set().subset_of(allowed),
    decreases ids.len(),
{
    if ids.len() > 0 {
        let rest = ids.drop_first();
        lemma_first_unknown(rest, allowed);
        if ids.to_set().subset_of(allowed) {
            assert(ids.contains(ids[0]));
            assert forall|id: Seq<char>| rest.to_set().contains(id) implies allowed.contains(
                id,
            ) by {
                let i = choose|i: int| 0 <= i < rest.len() && rest[i] == id;
                assert(ids[i + 1] == id);
                assert(ids.to_set().contains(id));
            }
        }
        if allowed.contains(ids[0]) && rest.to_set().subset_of(allowed) {
            assert forall|id: Seq<char>| ids.to_set().contains(id) implies allowed.contains(
                id,
            ) by {
                let i = choose|i: int| 0 <= i < ids.len() && ids[i] == id;
                if i > 0 {
                    assert(rest[i - 1] == id);
                    assert(rest.to_set().contains(id));
                }
            }
        }
    }
}

/// A sub-agent may run exactly where nothing is found against the policy that
/// it is given, if it is given one, and the agents that it may recall from, if
/// they are given, are some of its parent's.
pub proof fn law_spawn_succeeds_when_narrowing(
    spawn: SubAgentSpawn,
    overrides: SubAgentOverrides,
    violation: Option<Seq<char>>,
)
    ensures
        spawn_refusal(spawn, overrides, violation) is None <==> {
            &&& overrides.policy is Some ==> violation is None
            &&& overrides.allowed_agent_ids is Some ==> overrides.allowed_agent_ids->0@.subset_of(
                spawn.parent_allowed_agent_ids@,
            )
        },
{
    if overrides.allowed_agent_ids is Some {
        lemma_first_unknown(
            overrides.allowed_agent_ids->0.listed(),
            spawn.parent_allowed_agent_ids@,
        );
    }
}

/// What a policy is found to go beyond its parent's in is told in full.
pub proof fn law_violation_is_told(
    spawn: SubAgentSpawn,
    overrides: SubAgentOverrides,
    violation: Seq<char>,
)
    requires
        overrides.policy is Some,
    ensures
        spawn_refusal(spawn, overrides, Some(violation)) is Some,
        spawn_refusal(spawn, overrides, Some(violation))->0.text()
            == "subagent policy override escalates beyond parent: "@ + violation,
{
}

/// A sub-agent that may run recalls from no agent that the parent may not
/// recall from, save the parent itself, from which it always may; and it runs
/// under its parent's policy unless it is given one that nothing is found
/// against.
pub proof fn law_subagent_stays_inside_parent(
    spawn: SubAgentSpawn,
    overrides: SubAgentOverrides,
    violation: Option<Seq<char>>,
)
    requires
        spawn_refusal(spawn, overrides, violation) is None,
    ensures
        chosen_policy(spawn, overrides) == *spawn.parent_policy || overrides.policy == Some(
            chosen_policy(spawn, overrides),
        ) && violation is None,
        chosen_ids(spawn, overrides).contains(spawn.parent_agent_id@),
        chosen_ids(spawn, overrides).subset_of(
            spawn.parent_allowed_agent_ids@.insert(spawn.parent_agent_id@),
        ),
{
    law_spawn_succeeds_when_narrowing(spawn, overrides, violation);
}

/// The agent that a refusal names is one that was asked for and that the
/// parent may not recall from; the message quotes it.
pub proof fn law_refused_agent_is_named(
    spawn: SubAgentSpawn,
    overrides: SubAgentOverrides,
    violation: Option<Seq<char>>,
)
    ensures
        match spawn_refusal(spawn, overrides, violation) {
            Some(SpawnErrorView::UnknownAgent { id }) => {
                &&& overrides.allowed_agent_ids is Some
                &&& overrides.allowed_agent_ids->0@.contains(id)
                &&& !spawn.parent_allowed_agent_ids@.contains(id)
                &&& (SpawnErrorView::UnknownAgent { id }).text()
                    == "subagent allowlist override contains agent_id "@ + quoted(id)
                    + " not present on parent's memory allowlist; SubAgent overrides may only narrow"@
            },
            Some(SpawnErrorView::PolicyEscalates { violation: told }) => violation == Some(told)
                && overrides.policy is Some,
            None => true,
        },
{
    if overrides.allowed_agent_ids is Some {
        lemma_first_unknown_is_unknown(
            overrides.allowed_agent_ids->0.listed(),
            spawn.parent_allowed_agent_ids@,
        );
    }
}

proof fn lemma_first_unknown_is_unknown(ids: Seq<Seq<char>>, allowed: Set<Seq<char>>)
    ensures
        match first_unknown(ids, allowed) {
            Some(id) => ids.contains(id) && ids.to_set().contains(id) && !allowed.contains(id),
            None => true,
        },
    decreases ids.len(),
{
    if ids.len() > 0 {
        let rest = ids.drop_first();
        lemma_first_unknown_is_unknown(rest, allowed);
        if allowed.contains(ids[0]) {
            if let Some(id) = first_unknown(rest, allowed) {
                let i = choose|i: int| 0 <= i < rest.len() && rest[i] == id;
                assert(ids[i + 1] == id);
            }
        } else {
            assert(ids.contains(ids[0]));
        }
    }
}

/// The two overrides take effect each for itself: a sub-agent that may run has
/// the policy that it is given, else its parent's, and may recall from the
/// agents that it is given, else from its parent's, and always from its parent.
pub proof fn law_each_override_takes_effect(
    spawn: SubAgentSpawn,
    overrides: SubAgentOverrides,
    id: Seq<char>,
)
    ensures
        overrides.policy is Some ==> chosen_policy(spawn, overrides) == overrides.policy->0,
        overrides.policy is None ==> chosen_policy(spawn, overrides) == *spawn.parent_policy,
        overrides.allowed_agent_ids is Some ==> (chosen_ids(spawn, overrides).contains(id)
            <==> overrides.allowed_agent_ids->0@.contains(id) || id == spawn.parent_agent_id@),
        overrides.allowed_agent_ids is None ==> (chosen_ids(spawn, overrides).contains(id)
            <==> spawn.parent_allowed_agent_ids@.contains(id) || id == spawn.parent_agent_id@),
{
}

/// What the policy is changes nothing for the agents, and the other way round.
pub proof fn law_overrides_do_not_meddle(
    spawn: SubAgentSpawn,
    overrides: SubAgentOverrides,
    other: SubAgentOverrides,
)
    ensures
        overrides.policy == other.policy ==> chosen_policy(spawn, overrides) == chosen_policy(
            spawn,
            other,
        ),
        overrides.allowed_agent_ids == other.allowed_agent_ids ==> chosen_ids(spawn, overrides)
            == chosen_ids(spawn, other),
{
}

/// Whatever it means that a policy allows no more than another, as long as it
/// is reflexive and transitive: where policies that nothing is found against
/// allow no more than their parents', a sub-agent's sub-agent is allowed no
/// more than the first parent.
pub proof fn law_nested_subagents_stay_inside(
    within: spec_fn(SecurityPolicy, SecurityPolicy) -> bool,
    spawn: SubAgentSpawn,
    overrides: SubAgentOverrides,
    violation: Option<Seq<char>>,
    inner: SubAgentSpawn,
    inner_overrides: SubAgentOverrides,
    inner_violation: Option<Seq<char>>,
)
    requires
        forall|p: SecurityPolicy| #[trigger] within(p, p),
        forall|p: SecurityPolicy, q: SecurityPolicy, r: SecurityPolicy| #[trigger]
            within(p, q) && #[trigger] within(q, r) ==> within(p, r),
        overrides.policy is Some && violation is None ==> within(
            overrides.policy->0,
            *spawn.parent_policy,
        ),
        inner_overrides.policy is Some && inner_violation is None ==> within(
            inner_overrides.policy->0,
            *inner.parent_policy,
        ),
        spawn_refusal(spawn, overrides, violation) is None,
        spawn_refusal(inner, inner_overrides, inner_violation) is None,
        inner.parent_agent_id@ == spawn.parent_agent_id@,
        *inner.parent_policy == chosen_policy(spawn, overrides),
        inner.parent_allowed_agent_ids@ == chosen_ids(spawn, overrides),
    ensures
        within(chosen_policy(inner, inner_overrides), *spawn.parent_policy),
        chosen_ids(inner, inner_overrides).subset_of(
            spawn.parent_allowed_agent_ids@.insert(spawn.parent_agent_id@),
        ),
{
    law_subagent_stays_inside_parent(spawn, overrides, violation);
    law_subagent_stays_inside_parent(inner, inner_overrides, inner_violation);
    assert(within(chosen_policy(spawn, overrides), *spawn.parent_policy));
    assert(within(chosen_policy(inner, inner_overrides), *inner.parent_policy));
}

} // verus!
