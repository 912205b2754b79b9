use std::sync::Arc;
use zeroclaw::alias::NameSet;
use zeroclaw::policy::SecurityPolicy;
use zeroclaw::subagent::{SpawnError, SubAgentOverrides, SubAgentSpawn};

fn parent_policy() -> Arc<SecurityPolicy> {
    Arc::new(SecurityPolicy {
        workspace_dir: "/workspace".into(),
        workspace_only: true,
        allowed_roots: vec!["/projects".into(), "/data".into()],
        allowed_roots_read_only: vec!["/shared-docs".into()],
        allowed_commands: vec!["git".into(), "cargo".into()],
        max_actions_per_hour: 100,
        max_cost_per_day_cents: 500,
    })
}

fn set_of(names: &[&str]) -> NameSet {
    let mut s = NameSet::new();
    for name in names {
        s.insert(name.to_string());
    }
    s
}

fn sorted(s: &NameSet) -> Vec<String> {
    let mut out: Vec<String> = (0..s.len()).map(|i| s.name_at(i).clone()).collect();
    out.sort();
    out
}

fn parent_allowed() -> NameSet {
    set_of(&["agent-uuid-alpha", "agent-uuid-beta"])
}

fn parent_spawn() -> SubAgentSpawn {
    SubAgentSpawn {
        parent_agent_id: "agent-uuid-alpha".into(),
        parent_policy: parent_policy(),
        parent_allowed_agent_ids: parent_allowed(),
    }
}

#[test]
fn default_overrides_inherit_parent_verbatim() {
    let ctx = parent_spawn()
        .build(SubAgentOverrides::default(), None)
        .expect("inherit-by-default must succeed");
    assert_eq!(ctx.agent_id, "agent-uuid-alpha");
    assert_eq!(sorted(&ctx.allowed_agent_ids), sorted(&parent_allowed()));
    assert!(
        Arc::ptr_eq(&ctx.policy, &parent_policy())
            || *ctx.policy.allowed_roots == parent_policy().allowed_roots
    );
}

#[test]
fn policy_override_that_is_subset_is_accepted_and_narrows() {
    let mut narrowed = (*parent_policy()).clone();
    narrowed.allowed_roots = vec!["/projects".into()];
    narrowed.allowed_commands = vec!["git".into()];

    let ctx = parent_spawn()
        .build(
            SubAgentOverrides {
                policy: Some(narrowed),
                allowed_agent_ids: None,
            },
            None,
        )
        .expect("narrowed policy must be accepted");

    assert_eq!(ctx.policy.allowed_roots, vec!["/projects".to_string()]);
    assert_eq!(ctx.policy.allowed_commands, vec!["git".to_string()]);
}

#[test]
fn policy_override_that_escalates_is_rejected_with_violation_chained() {
    let mut escalated = (*parent_policy()).clone();
    escalated.allowed_roots.push("/secrets".into());

    let err = parent_spawn()
        .build(
            SubAgentOverrides {
                policy: Some(escalated),
                allowed_agent_ids: None,
            },
            Some("allowed root /secrets is not on the parent".into()),
        )
        .expect_err("escalation must be rejected");
    let chain = err.message();
    assert!(
        chain.contains("escalates beyond parent"),
        "expected escalation message in chain, got: {chain}"
    );
    assert!(
        chain.contains("/secrets"),
        "expected the offending path in the chain, got: {chain}"
    );
}

#[test]
fn allowlist_override_subset_is_accepted_and_always_includes_self() {
    let narrowed = set_of(&["agent-uuid-beta"]);

    let ctx = parent_spawn()
        .build(
            SubAgentOverrides {
                policy: None,
                allowed_agent_ids: Some(narrowed),
            },
            None,
        )
        .expect("narrowed allowlist must be accepted");

    assert!(ctx.allowed_agent_ids.contains("agent-uuid-alpha"));
    assert!(ctx.allowed_agent_ids.contains("agent-uuid-beta"));
    assert_eq!(ctx.allowed_agent_ids.len(), 2);
}

#[test]
fn allowlist_override_with_rogue_uuid_is_rejected() {
    let rogue = set_of(&["agent-uuid-rogue"]);

    let err = parent_spawn()
        .build(
            SubAgentOverrides {
                policy: None,
                allowed_agent_ids: Some(rogue),
            },
            None,
        )
        .expect_err("rogue UUID must be rejected");
    assert!(
        err.message().contains("agent-uuid-rogue"),
        "expected rogue UUID in error, got: {}",
        err.message()
    );
    assert_eq!(
        err.message(),
        "subagent allowlist override contains agent_id \"agent-uuid-rogue\" not present on parent's memory allowlist; SubAgent overrides may only narrow"
    );
}

#[test]
fn quoted_ids_are_escaped() {
    let err = parent_spawn()
        .build(
            SubAgentOverrides {
                policy: None,
                allowed_agent_ids: Some(set_of(&["a\"b\n"])),
            },
            None,
        )
        .unwrap_err();
    assert!(err.message().contains("agent_id \"a\\\"b\\n\" not present"));
    assert!(err.message_with("X").contains("agent_id X not present"));
}

#[test]
fn parent_is_always_allowed_to_itself() {
    let spawn = SubAgentSpawn {
        parent_agent_id: "me".into(),
        parent_policy: parent_policy(),
        parent_allowed_agent_ids: set_of(&["other"]),
    };
    let ctx = spawn.build(SubAgentOverrides::default(), None).unwrap();
    assert_eq!(sorted(&ctx.allowed_agent_ids), vec!["me".to_string(), "other".to_string()]);
}

#[test]
fn first_rogue_id_is_named() {
    let err = parent_spawn()
        .build(
            SubAgentOverrides {
                policy: None,
                allowed_agent_ids: Some(set_of(&["agent-uuid-beta", "x", "y"])),
            },
            None,
        )
        .unwrap_err();
    assert!(matches!(err, SpawnError::UnknownAgent { id } if id == "x"));
}

#[test]
fn policy_is_looked_at_before_the_allowlist() {
    let mut escalated = (*parent_policy()).clone();
    escalated.max_actions_per_hour = 101;
    let err = parent_spawn()
        .build(
            SubAgentOverrides {
                policy: Some(escalated),
                allowed_agent_ids: Some(set_of(&["x"])),
            },
            Some("too many actions".into()),
        )
        .unwrap_err();
    assert_eq!(
        err.message(),
        "subagent policy override escalates beyond parent: too many actions"
    );
}

#[test]
fn narrowing_twice_stays_inside() {
    let mut child = (*parent_policy()).clone();
    child.allowed_commands = vec!["git".into()];
    let first = parent_spawn()
        .build(SubAgentOverrides { policy: Some(child), allowed_agent_ids: None }, None)
        .unwrap();
    let mut grandchild = (*first.policy).clone();
    grandchild.allowed_commands = vec![];
    let again = SubAgentSpawn {
        parent_agent_id: first.agent_id,
        parent_policy: first.policy,
        parent_allowed_agent_ids: first.allowed_agent_ids,
    };
    let second = again
        .build(SubAgentOverrides { policy: Some(grandchild), allowed_agent_ids: None }, None)
        .unwrap();
    assert_eq!(second.agent_id, "agent-uuid-alpha");
    assert!(second.policy.allowed_commands.is_empty());
    assert_eq!(sorted(&second.allowed_agent_ids), sorted(&parent_allowed()));
}

#[test]
fn no_policy_means_nothing_to_look_at() {
    let ctx = parent_spawn()
        .build(SubAgentOverrides::default(), Some("unused".into()))
        .unwrap();
    assert_eq!(ctx.policy.max_actions_per_hour, 100);
}
