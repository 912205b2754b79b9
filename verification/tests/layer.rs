use zeroclaw::json::{Json, JsonNumber};
use zeroclaw::log::event::{EventCategory, EventOutcome, LogEvent, Severity};
use zeroclaw::log::layer::{
    infer_category, strip_outer_quotes, AgentAliasField, ChannelContextField, CronJobIdField,
    EventMetadata, FieldCollector, LogCaptureLayer, SessionKeyField, SpanMarkers,
};

fn capture(target: &str, fields: FieldCollector, spans: Vec<SpanMarkers>) -> Option<LogEvent> {
    let metadata = EventMetadata { severity: Severity::Info, target: target.to_string() };
    LogCaptureLayer.on_event(&metadata, fields, &spans)
}

fn no_markers() -> SpanMarkers {
    SpanMarkers { agent_alias: None, channel: None, session_key: None, cron_job_id: None }
}

#[test]
fn bare_event_takes_its_action_and_category_from_the_target() {
    let mut fields = FieldCollector::new();
    fields.record_debug("message", "\"hello\"");
    let e = capture("zeroclaw_channels::telegram::poll", fields, vec![]).unwrap();
    assert_eq!(e.severity, Severity::Info);
    assert_eq!(e.event.action, "poll");
    assert_eq!(e.event.category, EventCategory::Channel);
    assert_eq!(e.event.outcome, EventOutcome::Unknown);
    assert_eq!(e.message.as_deref(), Some("hello"));
    assert!(matches!(e.attributes, Json::Null));
}

#[test]
fn named_fields_go_to_their_places() {
    let mut fields = FieldCollector::new();
    fields.record_str("event", "tool_call");
    fields.record_str("category", "tool");
    fields.record_str("outcome", "success");
    fields.record_str("agent", "by_agent");
    fields.record_str("parent_alias", "by_parent");
    fields.record_str("channel", "telegram.prod");
    fields.record_str("model_provider", "openrouter.default");
    fields.record_str("model", "m");
    fields.record_str("tool", "shell");
    fields.record_str("session_key", "s");
    fields.record_str("cron_job_id", "c");
    fields.record_u64("duration_ms", 12);
    fields.record_str("trace_id", "t");
    fields.record_str("span_id", "p");
    fields.record_str("message", "m");
    let e = capture("x", fields, vec![]).unwrap();
    assert_eq!(e.event.action, "tool_call");
    assert_eq!(e.event.category, EventCategory::Tool);
    assert_eq!(e.event.outcome, EventOutcome::Success);
    assert_eq!(e.zeroclaw.agent_alias.as_deref(), Some("by_parent"));
    assert_eq!(e.zeroclaw.channel.as_deref(), Some("telegram.prod"));
    assert_eq!(e.zeroclaw.channel_type.as_deref(), Some("telegram"));
    assert_eq!(e.zeroclaw.model_provider_type.as_deref(), Some("openrouter"));
    assert_eq!(e.zeroclaw.model.as_deref(), Some("m"));
    assert_eq!(e.zeroclaw.tool.as_deref(), Some("shell"));
    assert_eq!(e.zeroclaw.session_key.as_deref(), Some("s"));
    assert_eq!(e.zeroclaw.cron_job_id.as_deref(), Some("c"));
    assert_eq!(e.zeroclaw.duration_ms, Some(12));
    assert_eq!(e.trace_id.as_deref(), Some("t"));
    assert_eq!(e.span_id.as_deref(), Some("p"));
    assert_eq!(e.message.as_deref(), Some("m"));
    assert!(matches!(e.attributes, Json::Null));
}

#[test]
fn other_fields_become_attributes() {
    let mut fields = FieldCollector::new();
    fields.record_bool("flag", true);
    fields.record_i64("low", -3);
    fields.record_i64("high", 3);
    fields.record_u64("count", 7);
    fields.record_f64("ratio", Some(JsonNumber::Float(0.5f64.to_bits())));
    fields.record_f64("bad", None);
    fields.record_i64("duration_ms", 9);
    fields.record_debug("path", "\"x\"");
    fields.record_error("err", "outer", &vec!["middle".to_string(), "inner".to_string()]);
    fields.record_str("twice", "first");
    fields.record_str("twice", "second");
    let e = capture("x", fields, vec![]).unwrap();
    let a = &e.attributes;
    assert!(matches!(a.get("flag"), Some(Json::Bool(true))));
    assert_eq!(a.get_number("low"), Some(JsonNumber::NegInt(-3)));
    assert_eq!(a.get_whole("high"), Some(3));
    assert_eq!(a.get_whole("count"), Some(7));
    assert_eq!(a.get_number("ratio"), Some(JsonNumber::Float(0.5f64.to_bits())));
    assert!(matches!(a.get("bad"), Some(Json::Null)));
    assert_eq!(a.get_whole("duration_ms"), Some(9));
    assert_eq!(e.zeroclaw.duration_ms, None);
    assert_eq!(a.get_text("path").as_deref(), Some("\"x\""));
    assert_eq!(a.get_text("err").as_deref(), Some("outer: middle: inner"));
    assert_eq!(a.get_text("twice").as_deref(), Some("second"));
    assert!(a.get("missing").is_none());
    match a {
        Json::Object(members) => {
            let keys: Vec<&str> = members.iter().map(|m| m.0.as_str()).collect();
            let mut want = keys.clone();
            want.sort();
            assert_eq!(keys, want);
            assert_eq!(keys.len(), 10);
        }
        other => panic!("{other:?}"),
    }
}

#[test]
fn named_places_take_texts_only() {
    let mut fields = FieldCollector::new();
    fields.record_u64("tool", 3);
    fields.record_bool("agent", true);
    let e = capture("x", fields, vec![]).unwrap();
    assert_eq!(e.zeroclaw.tool, None);
    assert_eq!(e.zeroclaw.agent_alias, None);
    assert!(matches!(e.attributes, Json::Null));
}

#[test]
fn unknown_words_fall_back() {
    let mut fields = FieldCollector::new();
    fields.record_str("category", "nonsense");
    fields.record_str("outcome", "nonsense");
    let e = capture("zeroclaw_memory", fields, vec![]).unwrap();
    assert_eq!(e.event.category, EventCategory::Memory);
    assert_eq!(e.event.outcome, EventOutcome::Unknown);
    assert_eq!(e.event.action, "zeroclaw_memory");
    assert_eq!(e.message.as_deref(), Some(""));
}

#[test]
fn internal_events_are_dropped() {
    assert!(capture("zeroclaw_log_internal", FieldCollector::new(), vec![]).is_none());
    assert!(capture("zeroclaw_log_internal::x", FieldCollector::new(), vec![]).is_none());
    assert!(capture("zeroclaw_log", FieldCollector::new(), vec![]).is_some());
}

#[test]
fn spans_fill_what_the_event_leaves_open() {
    let inner = SpanMarkers {
        channel: Some(ChannelContextField { composite: "telegram.prod".into() }),
        ..no_markers()
    };
    let outer = SpanMarkers {
        agent_alias: Some(AgentAliasField { alias: "outer".into() }),
        channel: Some(ChannelContextField { composite: "matrix.x".into() }),
        session_key: Some(SessionKeyField { key: "k".into() }),
        cron_job_id: Some(CronJobIdField { id: "j".into() }),
    };
    let mut fields = FieldCollector::new();
    fields.record_str("session_key", "own");
    let e = capture("x", fields, vec![inner, outer]).unwrap();
    assert_eq!(e.zeroclaw.agent_alias.as_deref(), Some("outer"));
    assert_eq!(e.zeroclaw.channel.as_deref(), Some("telegram.prod"));
    assert_eq!(e.zeroclaw.channel_type.as_deref(), Some("telegram"));
    assert_eq!(e.zeroclaw.session_key.as_deref(), Some("own"));
    assert_eq!(e.zeroclaw.cron_job_id.as_deref(), Some("j"));
}

#[test]
fn new_spans_keep_their_markers() {
    let mut fields = FieldCollector::new();
    fields.record_str("agent", "a");
    fields.record_str("session_key", "k");
    let markers = LogCaptureLayer.on_new_span(fields);
    assert_eq!(markers.agent_alias.unwrap().alias, "a");
    assert_eq!(markers.session_key.unwrap().key, "k");
    assert!(markers.channel.is_none());
    assert!(markers.cron_job_id.is_none());
    let mut fields = FieldCollector::new();
    fields.record_str("agent", "a");
    fields.record_str("agent_alias", "b");
    assert_eq!(LogCaptureLayer.on_new_span(fields).agent_alias.unwrap().alias, "b");
}

#[test]
fn categories_go_by_the_first_segment() {
    for (target, category) in [
        ("zeroclaw_runtime::agent", EventCategory::System),
        ("zeroclaw_channels", EventCategory::Channel),
        ("zeroclaw_memory::x::y", EventCategory::Memory),
        ("zeroclaw_providers::x", EventCategory::Provider),
        ("zeroclaw_gateway", EventCategory::System),
        ("zeroclaw_log::x", EventCategory::Internal),
        ("matrix_sdk", EventCategory::Internal),
        ("matrix_sdk_base::x", EventCategory::Internal),
        ("matrix_sdk_crypto", EventCategory::Internal),
        ("hyper", EventCategory::System),
        ("", EventCategory::System),
    ] {
        assert_eq!(infer_category(target), category, "{target}");
    }
}

#[test]
fn outer_quotes_are_stripped_once() {
    assert_eq!(strip_outer_quotes(" \"a\" "), "a");
    assert_eq!(strip_outer_quotes("\"\"a\"\""), "\"a\"");
    assert_eq!(strip_outer_quotes("\""), "\"");
    assert_eq!(strip_outer_quotes("\"\""), "");
    assert_eq!(strip_outer_quotes("\"é\""), "é");
    assert_eq!(strip_outer_quotes("\"a"), "\"a");
    assert_eq!(strip_outer_quotes("  "), "");
}

#[test]
fn message_is_taken_once() {
    let mut fields = FieldCollector::new();
    fields.record_str("message", "m");
    assert_eq!(fields.message_or_summary(), "m");
    assert_eq!(fields.message_or_summary(), "");
}

#[test]
fn words_are_parsed_and_nothing_else() {
    assert_eq!(EventCategory::parse("provider"), Some(EventCategory::Provider));
    assert_eq!(EventCategory::parse("Provider"), None);
    assert_eq!(EventOutcome::parse("failure"), Some(EventOutcome::Failure));
    assert_eq!(EventOutcome::parse(""), None);
}

#[test]
fn composites_split_at_the_first_dot() {
    let mut e = LogEvent::new(Severity::Warn, "a", EventCategory::System);
    e.zeroclaw.set_channel_composite("a.b.c");
    assert_eq!(e.zeroclaw.channel.as_deref(), Some("a.b.c"));
    assert_eq!(e.zeroclaw.channel_type.as_deref(), Some("a"));
    e.zeroclaw.set_channel_composite("plain");
    assert_eq!(e.zeroclaw.channel.as_deref(), Some("plain"));
    assert_eq!(e.zeroclaw.channel_type, None);
}

#[test]
fn order_of_different_fields_does_not_matter() {
    let mut a = FieldCollector::new();
    a.record_str("tool", "shell");
    a.record_u64("n", 1);
    a.record_bool("flag", false);
    let mut b = FieldCollector::new();
    b.record_bool("flag", false);
    b.record_u64("n", 1);
    b.record_str("tool", "shell");
    let a = capture("x", a, vec![]).unwrap();
    let b = capture("x", b, vec![]).unwrap();
    assert_eq!(format!("{a:?}"), format!("{b:?}"));
}
