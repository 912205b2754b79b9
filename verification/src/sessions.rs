//! How many sessions each agent has running. An agent with one is not to lose
//! its workspace.

use vstd::prelude::*;

use crate::alias::AliasMap;

verus! {

/// The running sessions, counted by agent. An agent without one has no entry.
#[derive(Debug)]
pub struct SessionRegistry {
    counts: AliasMap<usize>,
}

/// How many sessions `counts` has for `alias`.
pub open spec fn count_in(counts: Map<Seq<char>, usize>, alias: Seq<char>) -> nat {
    if counts.contains_key(alias) {
        counts[alias] as nat
    } else {
        0
    }
}

/// The counts with one session more for `alias`.
pub open spec fn registered(counts: Map<Seq<char>, usize>, alias: Seq<char>) -> Map<
    Seq<char>,
    usize,
> {
    counts.insert(alias, (count_in(counts, alias) + 1) as usize)
}

/// The counts with one session less for `alias`, where it has any.
pub open spec fn released(counts: Map<Seq<char>, usize>, alias: Seq<char>) -> Map<
    Seq<char>,
    usize,
> {
    if count_in(counts, alias) > 1 {
        counts.insert(alias, (count_in(counts, alias) - 1) as usize)
    } else {
        counts.remove(alias)
    }
}

/// No count is zero.
pub open spec fn no_zero(counts: Map<Seq<char>, usize>) -> bool {
    forall|alias: Seq<char>| counts.contains_key(alias) ==> #[trigger] counts[alias] > 0
}

impl View for SessionRegistry {
    type V = Map<Seq<char>, usize>;

    closed spec fn view(&self) -> Map<Seq<char>, usize> {
        self.counts@
    }
}

impl SessionRegistry {
    /// Each agent has one entry at most.
    pub closed spec fn keyed(&self) -> bool {
        self.counts.wf()
    }

    /// Each agent has one entry at most, and none counts zero.
    pub open spec fn wf(&self) -> bool {
        self.keyed() && no_zero(self@)
    }

    /// No session is running.
    pub fn new() -> (out: Self)
        ensures
            out.wf(),
            out@ == Map::<Seq<char>, usize>::empty(),
    {
        SessionRegistry { counts: AliasMap::new() }
    }
}

/// A running session. It is counted until it is released.
#[must_use]
#[derive(Debug)]
pub struct SessionGuard {
    alias: String,
}

impl SessionGuard {
    /// The agent whose session it is.
    pub closed spec fn agent(&self) -> Seq<char> {
        self.alias@
    }

    /// Ends the session: the agent has one less. Without a count for the
    /// agent, nothing changes.
    pub fn release(self, registry: &mut SessionRegistry)
        requires
            old(registry).wf(),
        ensures
            final(registry).wf(),
            final(registry)@ == released(old(registry)@, self.agent()),
    {
        let ghost before = registry@;
        let n: usize = active_sessions_for(registry, self.alias.as_str());
        if n > 1 {
            registry.counts.insert(self.alias, n - 1);
        } else {
            registry.counts.remove(self.alias.as_str());
        }
        proof {
            assert(registry@ == released(before, self.agent()));
            assert forall|alias: Seq<char>| registry@.contains_key(alias) implies #[trigger]
                registry@[alias] > 0 by {
                assert(before.contains_key(alias));
                assert(before[alias] > 0);
            }
        }
    }
}

/// Counts one session more for `alias`.
pub fn register_session(registry: &mut SessionRegistry, alias: String) -> (out: SessionGuard)
    requires
        old(registry).wf(),
        count_in(old(registry)@, alias@) < usize::MAX,
    ensures
        final(registry).wf(),
        final(registry)@ == registered(old(registry)@, alias@),
        out.agent() == alias@,
{
    let ghost before = registry@;
    let n: usize = active_sessions_for(registry, alias.as_str());
    registry.counts.insert(alias.clone(), n + 1);
    proof {
        assert forall|other: Seq<char>| registry@.contains_key(other) implies #[trigger]
            registry@[other] > 0 by {
            if other != alias@ {
                assert(before.contains_key(other));
                assert(before[other] > 0);
            }
        }
    }
    SessionGuard { alias }
}

/// How many sessions `alias` has running.
pub fn active_sessions_for(registry: &SessionRegistry, alias: &str) -> (n: usize)
    requires
        registry.wf(),
    ensures
        n == count_in(registry@, alias@),
{
    match registry.counts.get(alias) {
        Some(n) => *n,
        None => 0,
    }
}

// ---------------------------------------------------------------------------
// Laws
// ---------------------------------------------------------------------------

/// Registering counts one more, releasing one less, and neither touches the
/// count of another agent.
pub proof fn law_sessions_are_counted(
    counts: Map<Seq<char>, usize>,
    alias: Seq<char>,
    other: Seq<char>,
)
    requires
        count_in(counts, alias) < usize::MAX,
        other != alias,
    ensures
        count_in(registered(counts, alias), alias) == count_in(counts, alias) + 1,
        count_in(released(counts, alias), alias) == (if count_in(counts, alias) == 0 {
            0
        } else {
            (count_in(counts, alias) - 1) as nat
        }),
        count_in(registered(counts, alias), other) == count_in(counts, other),
        count_in(released(counts, alias), other) == count_in(counts, other),
{
}

/// Releasing a session undoes its registration.
pub proof fn law_release_undoes_register(counts: Map<Seq<char>, usize>, alias: Seq<char>)
    requires
        no_zero(counts),
        count_in(counts, alias) < usize::MAX,
    ensures
        released(registered(counts, alias), alias) == counts,
{
    let after = registered(counts, alias);
    if counts.contains_key(alias) {
        assert(counts[alias] > 0);
        assert(after.insert(alias, counts[alias]) =~= counts);
    } else {
        assert(after.remove(alias) =~= counts);
    }
}

/// Sessions can end in any order.
pub proof fn law_releases_commute(counts: Map<Seq<char>, usize>, a: Seq<char>, b: Seq<char>)
    ensures
        released(released(counts, a), b) == released(released(counts, b), a),
{
    if a != b {
        assert(released(released(counts, a), b) =~= released(released(counts, b), a));
    }
}

/// The count of an agent is its entry, and zero where it has none.
pub proof fn law_count_is_the_entry(counts: Map<Seq<char>, usize>, alias: Seq<char>)
    ensures
        counts.contains_key(alias) ==> count_in(counts, alias) == counts[alias],
        !counts.contains_key(alias) ==> count_in(counts, alias) == 0,
{
}

} // verus!
