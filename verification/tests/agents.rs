use zeroclaw::agents::{
    create_agent, delete_agent, list_agents, AgentError, AgentSpec, DeleteOptions, DeleteReport,
    DeleteStep,
};
use zeroclaw::config::{Config, MemoryBackendKind, PeerGroupConfig};
use zeroclaw::path::join_path;
use zeroclaw::sessions::{active_sessions_for, register_session, SessionRegistry};

fn configured() -> Config {
    let mut config = Config::new();
    config.risk_profiles.insert("default".into());
    config
}

fn make_spec(alias: &str) -> AgentSpec {
    AgentSpec {
        alias: alias.into(),
        risk_profile: "default".into(),
        model_provider: None,
        memory_backend: None,
    }
}

fn workspace_of(alias: &str) -> String {
    join_path("/install/agents", alias)
}

fn create(config: &mut Config, spec: AgentSpec) -> Result<String, AgentError> {
    let dir = workspace_of(&spec.alias);
    create_agent(config, spec, dir)?.made(None)?.seeded(config, None)?.saved(None)
}

fn delete(
    config: &mut Config,
    alias: &str,
    opts: DeleteOptions,
    sessions: &SessionRegistry,
) -> Result<DeleteReport, AgentError> {
    match delete_agent(config, alias, opts, workspace_of(alias), sessions)? {
        DeleteStep::Done(report) => Ok(report),
        DeleteStep::Save(step) => step.saved(None)?.removed(None),
    }
}

#[test]
fn create_agent_writes_config_block_and_workspace_dir() {
    let alias = "agents_test_create_basic";
    let mut config = configured();

    let step = create_agent(&config, make_spec(alias), workspace_of(alias)).unwrap();
    assert_eq!(step.workspace_dir, workspace_of(alias));
    assert!(!config.agents.contains_key(alias));
    let step = step.made(None).unwrap().seeded(&mut config, None).unwrap();
    assert!(
        config.agents.contains_key(alias),
        "config must contain the new agent's block"
    );
    assert_eq!(step.saved(None).unwrap(), "/install/agents/agents_test_create_basic");
    assert_eq!(config.agents.get(alias).unwrap().risk_profile, "default");
}

#[test]
fn create_agent_refuses_duplicate_alias() {
    let alias = "agents_test_create_dup";
    let mut config = configured();
    create(&mut config, make_spec(alias)).unwrap();

    let err = create(&mut config, make_spec(alias))
        .expect_err("second create with same alias must fail");
    assert!(err.message().contains("already exists"), "{}", err.message());
    assert_eq!(
        err.message(),
        "agent \"agents_test_create_dup\" already exists; refusing to overwrite"
    );
}

#[test]
fn create_agent_refuses_unknown_risk_profile() {
    let mut config = configured();
    let spec = AgentSpec {
        risk_profile: "missing".into(),
        ..make_spec("agents_test_create_unknown_profile")
    };

    let err = create(&mut config, spec).expect_err("unknown risk_profile must be rejected");
    assert!(err.message().contains("not configured"), "{}", err.message());
    assert_eq!(
        err.message(),
        "risk_profile \"missing\" is not configured; create it under [risk_profiles.<alias>] before binding it to an agent"
    );
    assert_eq!(config.agents.len(), 0);
}

fn research_group(agents: &[&str]) -> PeerGroupConfig {
    PeerGroupConfig {
        channel: "telegram.prod".into(),
        agents: agents.iter().map(|a| a.to_string()).collect(),
        external_peers: vec!["peer".into()],
        ignore: vec!["spam".into()],
    }
}

#[test]
fn delete_agent_removes_workspace_and_strips_peer_group_membership() {
    let alias_a = "agents_test_delete_basic_a";
    let alias_b = "agents_test_delete_basic_b";
    let mut config = configured();
    let a_dir = create(&mut config, make_spec(alias_a)).unwrap();
    let _ = create(&mut config, make_spec(alias_b)).unwrap();

    config.peer_groups.insert("research".into(), research_group(&[alias_a, alias_b]));
    config.peer_groups.insert("other".into(), research_group(&[alias_b]));

    let sessions = SessionRegistry::new();
    let report = delete(&mut config, alias_a, DeleteOptions::default(), &sessions)
        .expect("delete succeeds");

    assert!(!report.dry_run);
    assert_eq!(report.workspace_dir, a_dir);
    assert_eq!(report.peer_group_memberships, vec!["research".to_string()]);
    assert!(!config.agents.contains_key(alias_a));
    assert!(config.agents.contains_key(alias_b));
    let group = config.peer_groups.get("research").unwrap();
    assert_eq!(
        group.agents,
        vec![alias_b.to_string()],
        "alias must be stripped from peer-group memberships"
    );
    assert_eq!(group.channel, "telegram.prod");
    assert_eq!(group.external_peers, vec!["peer".to_string()]);
    assert_eq!(group.ignore, vec!["spam".to_string()]);
    assert_eq!(config.peer_groups.get("other").unwrap().agents, vec![alias_b.to_string()]);
}

#[test]
fn delete_agent_dry_run_changes_nothing_on_disk() {
    let alias = "agents_test_delete_dry_run";
    let mut config = configured();
    let dir = create(&mut config, make_spec(alias)).unwrap();
    config.peer_groups.insert("research".into(), research_group(&[alias]));

    let mut sessions = SessionRegistry::new();
    let guard = register_session(&mut sessions, alias.to_string());
    let opts = DeleteOptions { dry_run: true, ..DeleteOptions::default() };
    let step = delete_agent(&mut config, alias, opts, workspace_of(alias), &sessions).unwrap();
    let report = match step {
        DeleteStep::Done(report) => report,
        DeleteStep::Save(_) => panic!("a dry run saves nothing"),
    };

    assert!(report.dry_run);
    assert_eq!(report.workspace_dir, dir);
    assert_eq!(report.peer_group_memberships, vec!["research".to_string()]);
    assert!(
        config.agents.contains_key(alias),
        "dry_run must NOT drop the config block"
    );
    assert_eq!(config.peer_groups.get("research").unwrap().agents, vec![alias.to_string()]);
    guard.release(&mut sessions);
}

#[test]
fn delete_agent_refuses_unknown_alias() {
    let mut config = configured();
    let err = delete(
        &mut config,
        "agents_test_delete_ghost",
        DeleteOptions::default(),
        &SessionRegistry::new(),
    )
    .expect_err("delete of unknown alias must fail");
    assert!(err.message().contains("not configured"), "{}", err.message());
    assert_eq!(err.message(), "agent \"agents_test_delete_ghost\" is not configured");
}

#[test]
fn delete_agent_refuses_when_active_sessions_present() {
    let alias = "agents_test_delete_refuses_active";
    let mut config = configured();
    create(&mut config, make_spec(alias)).unwrap();

    let mut sessions = SessionRegistry::new();
    {
        let guard = register_session(&mut sessions, alias.to_string());
        assert_eq!(active_sessions_for(&sessions, alias), 1);

        let err = delete(&mut config, alias, DeleteOptions::default(), &sessions)
            .expect_err("delete must refuse on active session");
        assert!(err.message().contains("active session"), "{}", err.message());
        assert_eq!(
            err.message(),
            "agent \"agents_test_delete_refuses_active\" has 1 active session(s); refuse to delete. Stop the running sessions first, or pass force_active_sessions=true to override (the in-flight agent loop will surface I/O errors when its workspace disappears)."
        );
        guard.release(&mut sessions);
    }

    assert_eq!(active_sessions_for(&sessions, alias), 0);
    delete(&mut config, alias, DeleteOptions::default(), &sessions)
        .expect("delete succeeds once sessions clear");
}

#[test]
fn delete_agent_force_active_sessions_overrides_refusal() {
    let alias = "agents_test_delete_force";
    let mut config = configured();
    create(&mut config, make_spec(alias)).unwrap();

    let mut sessions = SessionRegistry::new();
    let _guard = register_session(&mut sessions, alias.to_string());
    delete(
        &mut config,
        alias,
        DeleteOptions {
            force_active_sessions: true,
            ..DeleteOptions::default()
        },
        &sessions,
    )
    .expect("force_active_sessions must override the refusal");
    assert!(!config.agents.contains_key(alias));
}

#[test]
fn list_agents_returns_sorted_summaries() {
    let alias_first = "agents_test_list_aaa";
    let alias_second = "agents_test_list_zzz";
    let mut config = configured();
    create(&mut config, make_spec(alias_second)).unwrap();
    create(&mut config, make_spec(alias_first)).unwrap();

    let summaries = list_agents(&config);
    assert_eq!(summaries.len(), 2);
    assert_eq!(summaries[0].alias, alias_first);
    assert_eq!(summaries[1].alias, alias_second);
    assert_eq!(summaries[0].risk_profile, "default");
    assert!(matches!(summaries[0].memory_backend, MemoryBackendKind::Sqlite));
    assert_eq!(summaries[0].model_provider, "");
    assert!(summaries[0].channels.is_empty());
}

#[test]
fn list_shows_what_an_agent_was_given() {
    let mut config = configured();
    create(
        &mut config,
        AgentSpec {
            model_provider: Some("openrouter.default".into()),
            memory_backend: Some(MemoryBackendKind::Named("lucid".into())),
            ..make_spec("b")
        },
    )
    .unwrap();
    create(&mut config, make_spec("B")).unwrap();
    create(&mut config, make_spec("a")).unwrap();
    let rows = list_agents(&config);
    let aliases: Vec<&str> = rows.iter().map(|r| r.alias.as_str()).collect();
    assert_eq!(aliases, vec!["B", "a", "b"]);
    assert_eq!(rows[2].model_provider, "openrouter.default");
    assert!(matches!(&rows[2].memory_backend, MemoryBackendKind::Named(n) if n == "lucid"));
}

#[test]
fn failed_steps_say_what_failed() {
    let mut config = configured();
    let err = create_agent(&config, make_spec("a"), "/w/a".into())
        .unwrap()
        .made(Some("disk full".into()))
        .unwrap_err();
    assert_eq!(err.message(), "failed to create per-agent workspace at /w/a");
    assert!(matches!(err, AgentError::WorkspaceNotMade { cause, .. } if cause == "disk full"));

    let err = create_agent(&config, make_spec("a"), "/w/a".into())
        .unwrap()
        .made(None)
        .unwrap()
        .seeded(&mut config, Some("no".into()))
        .unwrap_err();
    assert_eq!(err.message(), "failed to seed bootstrap identity files in /w/a");
    assert!(!config.agents.contains_key("a"));

    let err = create_agent(&config, make_spec("a"), "/w/a".into())
        .unwrap()
        .made(None)
        .unwrap()
        .seeded(&mut config, None)
        .unwrap()
        .saved(Some("read-only".into()))
        .unwrap_err();
    assert_eq!(err.message(), "failed to save config");
    assert!(config.agents.contains_key("a"));

    let sessions = SessionRegistry::new();
    let opts = DeleteOptions::default();
    let step = match delete_agent(&mut config, "a", opts, "/w/a".into(), &sessions).unwrap() {
        DeleteStep::Save(step) => step,
        DeleteStep::Done(_) => panic!("nothing was deleted"),
    };
    let err = step.saved(Some("read-only".into())).unwrap_err();
    assert!(matches!(err, AgentError::ConfigNotSaved { cause } if cause == "read-only"));

    create(&mut config, make_spec("a")).unwrap();
    let step = match delete_agent(&mut config, "a", opts, "/w/a".into(), &sessions).unwrap() {
        DeleteStep::Save(step) => step,
        DeleteStep::Done(_) => panic!("nothing was deleted"),
    };
    let err = step.saved(None).unwrap().removed(Some("busy".into())).unwrap_err();
    assert_eq!(err.message(), "failed to remove agent workspace at /w/a");
}

#[test]
fn deleting_what_was_created_leaves_the_rest() {
    let mut config = configured();
    create(&mut config, make_spec("keep")).unwrap();
    create(&mut config, make_spec("gone")).unwrap();
    config.peer_groups.insert("g".into(), research_group(&["gone", "keep", "gone"]));
    delete(&mut config, "gone", DeleteOptions::default(), &SessionRegistry::new()).unwrap();
    assert_eq!(config.agents.len(), 1);
    assert_eq!(config.agents.alias_at(0), "keep");
    assert_eq!(config.peer_groups.get("g").unwrap().agents, vec!["keep".to_string()]);
}

#[test]
fn quoting_escapes_names_in_messages() {
    let mut config = configured();
    let err = delete(&mut config, "a\"\t", DeleteOptions::default(), &SessionRegistry::new())
        .unwrap_err();
    assert_eq!(err.message(), "agent \"a\\\"\\t\" is not configured");
    assert_eq!(err.message_with("it"), "agent it is not configured");
}
