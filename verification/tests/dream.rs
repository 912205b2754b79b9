use zeroclaw::dream::pending::{
    pending_path, ClearOutcome, DreamPending, LoadOutcome, SaveOutcome, StagedInsight,
};
use zeroclaw::dream::run::{
    run_dream, show_report, CycleResult, DreamConfig, DreamError, EndTexts, FallbackProvider,
    StartTexts,
};

#[test]
fn load_hands_on_what_was_read() {
    let pending = DreamPending {
        insights: vec![StagedInsight {
            content: "User prefers Rust.".into(),
            importance_bits: 0.8f64.to_bits(),
        }],
        proposed_prunes: vec!["old_key_1".into()],
        timestamp: (1_700_000_000, 7),
        summary: Some("Quiet day.".into()),
    };

    pending.save("/ws", SaveOutcome::Written).unwrap();
    let loaded = DreamPending::load("/ws", LoadOutcome::Read(pending)).unwrap().unwrap();
    assert_eq!(loaded.insights.len(), 1);
    assert_eq!(loaded.insights[0].content, "User prefers Rust.");
    assert_eq!(loaded.insights[0].importance_bits, 0.8f64.to_bits());
    assert_eq!(loaded.proposed_prunes, vec!["old_key_1".to_string()]);
    assert_eq!(loaded.timestamp, (1_700_000_000, 7));
    assert_eq!(loaded.summary.as_deref(), Some("Quiet day."));
}

#[test]
fn no_pending_returns_none() {
    let loaded = DreamPending::load("/ws", LoadOutcome::Missing).unwrap();
    assert!(loaded.is_none());
}

#[test]
fn clear_removes_file() {
    assert_eq!(pending_path("/ws"), "/ws/dream_pending.json");
    DreamPending::clear("/ws", ClearOutcome::Removed).unwrap();
    DreamPending::clear("/ws", ClearOutcome::Missing).unwrap();
}

#[test]
fn pending_failures_name_the_file() {
    let pending = DreamPending {
        insights: vec![],
        proposed_prunes: vec![],
        timestamp: (0, 0),
        summary: None,
    };
    let err = pending.save("/ws", SaveOutcome::NotSerialized("x".into())).unwrap_err();
    assert_eq!(err.message(), "dream pending: failed to serialize");
    let err = pending.save("/ws", SaveOutcome::NotWritten("x".into())).unwrap_err();
    assert_eq!(err.message(), "dream pending: failed to write /ws/dream_pending.json");
    let err = DreamPending::load("/ws", LoadOutcome::NotRead("x".into())).unwrap_err();
    assert_eq!(err.message(), "dream pending: failed to read /ws/dream_pending.json");
    let err = DreamPending::load("/ws", LoadOutcome::NotParsed("x".into())).unwrap_err();
    assert_eq!(err.message(), "dream pending: failed to parse /ws/dream_pending.json");
    let err = DreamPending::clear("/ws", ClearOutcome::NotRemoved("x".into())).unwrap_err();
    assert_eq!(err.message(), "dream pending: failed to remove /ws/dream_pending.json");
}

fn config(model: Option<&str>, provider_model: Option<&str>) -> DreamConfig {
    DreamConfig {
        audit_mode: false,
        model: model.map(String::from),
        fallback: None,
        fallback_provider: Some(FallbackProvider {
            model: provider_model.map(String::from),
            api_key: Some("SECRET-REDACTED".into()),
            base_url: None,
        }),
        last_resort_model: "small".into(),
    }
}

#[test]
fn plan_follows_the_configuration() {
    let plan = run_dream(&config(Some("a"), Some("b")), false, false).unwrap();
    assert_eq!(plan.model, "a");
    assert_eq!(plan.provider, "anthropic");
    assert_eq!(plan.api_key.as_deref(), Some("SECRET-REDACTED"));
    assert_eq!(plan.base_url, None);
    assert!(!plan.audit_mode);
    let plan = run_dream(&config(None, Some("b")), true, false).unwrap();
    assert_eq!(plan.model, "b");
    assert!(plan.audit_mode);
    let mut cfg = config(None, None);
    cfg.fallback = Some("openrouter".into());
    cfg.audit_mode = true;
    let plan = run_dream(&cfg, false, false).unwrap();
    assert_eq!(plan.model, "small");
    assert_eq!(plan.provider, "openrouter");
    assert!(plan.audit_mode);
}

#[test]
fn plan_needs_a_provider_and_a_memory() {
    let mut cfg = config(None, None);
    cfg.fallback_provider = None;
    let err = run_dream(&cfg, false, false).unwrap_err();
    assert!(matches!(err, DreamError::NoFallbackProvider));
    assert_eq!(err.message(), "dream: no fallback provider configured");
    let plan = run_dream(&config(None, None), false, false).unwrap();
    assert!(plan.memory_opened(None).is_ok());
    let err = plan.memory_opened(Some("locked".into())).unwrap_err();
    assert_eq!(err.message(), "dream: failed to create memory backend");
}

#[test]
fn start_is_printed_when_asked_for() {
    let texts = StartTexts { starting: None, dry_run_mode: "dry".into() };
    let own = StartTexts { starting: Some("go".into()), dry_run_mode: "dry".into() };
    let quiet = run_dream(&config(Some("m"), None), true, false).unwrap();
    assert_eq!(quiet.before("sqlite", &texts), "");
    let wet = run_dream(&config(Some("m"), None), false, true).unwrap();
    assert_eq!(
        wet.before("sqlite", &texts),
        "Dream cycle starting...\n  Provider: anthropic\n  Model: m\n  Memory backend: sqlite\n"
    );
    let dry = run_dream(&config(Some("m"), None), true, true).unwrap();
    assert_eq!(dry.before("sqlite", &own), "go\ndry\n");
}

#[test]
fn end_is_printed_in_full() {
    let result = CycleResult {
        gathered_count: 12,
        consolidated_count: 2,
        pruned_count: 0,
        insights: vec!["one".into(), "two".into()],
        report_summary: Some("calm".into()),
    };
    let texts = EndTexts {
        complete: None,
        insights_header: "Insights:".into(),
        summary: None,
        dry_run_notice: "Nothing was changed.".into(),
    };
    let dry = run_dream(&config(None, None), true, false).unwrap();
    assert_eq!(
        dry.after(&result, &texts),
        "Dream cycle complete: 12 memories gathered, 2 insights consolidated, 0 pruned\n\nInsights:\n  1. one\n  2. two\n\nSummary: calm\n\nNothing was changed.\n"
    );
    let bare = CycleResult {
        gathered_count: 0,
        consolidated_count: 0,
        pruned_count: 0,
        insights: vec![],
        report_summary: None,
    };
    let own = EndTexts { complete: Some("done".into()), summary: Some("s".into()), ..texts };
    let wet = run_dream(&config(None, None), false, false).unwrap();
    assert_eq!(wet.after(&bare, &own), "done\n");
    assert_eq!(wet.after(&result, &own), "done\n\nInsights:\n  1. one\n  2. two\n\ns\n");
}

#[test]
fn insights_are_numbered_past_nine() {
    let result = CycleResult {
        gathered_count: 1,
        consolidated_count: 1,
        pruned_count: 1,
        insights: (0..11).map(|i| format!("n{i}")).collect(),
        report_summary: None,
    };
    let texts = EndTexts {
        complete: Some("c".into()),
        insights_header: "h".into(),
        summary: None,
        dry_run_notice: "d".into(),
    };
    let plan = run_dream(&config(None, None), false, false).unwrap();
    assert!(plan.after(&result, &texts).ends_with("  10. n9\n  11. n10\n"));
}

#[test]
fn report_is_delivered_when_shown() {
    let shown = show_report(Some("the report".into()), "none");
    assert_eq!(shown.printed, "the report\n");
    assert!(shown.deliver);
    let shown = show_report(None, "none");
    assert_eq!(shown.printed, "none\n");
    assert!(!shown.deliver);
}
