use zeroclaw::json::{Json, JsonNumber};
use zeroclaw::log::bridge::{
    clear_observer_bridge, forward, project, set_observer_bridge, ObserverEvent, ObserverSlot,
};
use zeroclaw::log::event::{EventCategory, EventOutcome, LogEvent, Severity};

fn whole(n: u64) -> Json {
    Json::Number(JsonNumber::PosInt(n))
}

fn object(members: Vec<(&str, Json)>) -> Json {
    Json::Object(members.into_iter().map(|(k, v)| (k.to_string(), v)).collect())
}

#[test]
fn projects_llm_request() {
    let mut slot: ObserverSlot<&str> = ObserverSlot::new();
    clear_observer_bridge(&mut slot);
    set_observer_bridge(&mut slot, "capturing");

    let mut ev = LogEvent::new(Severity::Info, "llm_request", EventCategory::Agent);
    ev.zeroclaw.set_model_provider_composite("anthropic.clamps");
    ev.zeroclaw.model = Some("sonnet-4-6".into());
    ev.attributes = object(vec![("messages_count", whole(4))]);

    let (observer, event) = forward(&slot, &ev).unwrap();
    assert_eq!(*observer, "capturing");
    match &event {
        ObserverEvent::LlmRequest {
            model_provider,
            model,
            messages_count,
        } => {
            assert_eq!(model_provider, "anthropic");
            assert_eq!(model, "sonnet-4-6");
            assert_eq!(*messages_count, 4);
        }
        _ => panic!("expected LlmRequest, got {:?}", event),
    }

    clear_observer_bridge(&mut slot);
}

#[test]
fn projects_tool_call_success() {
    let mut slot: ObserverSlot<&str> = ObserverSlot::new();
    clear_observer_bridge(&mut slot);
    set_observer_bridge(&mut slot, "capturing");

    let mut ev = LogEvent::new(Severity::Info, "tool_call", EventCategory::Tool);
    ev.zeroclaw.tool = Some("shell".into());
    ev.zeroclaw.duration_ms = Some(120);
    ev.set_outcome(EventOutcome::Success);

    let (_, event) = forward(&slot, &ev).unwrap();
    match &event {
        ObserverEvent::ToolCall {
            tool,
            duration_ms,
            success,
        } => {
            assert_eq!(tool, "shell");
            assert_eq!(*duration_ms, 120);
            assert!(*success);
        }
        _ => panic!("expected ToolCall, got {:?}", event),
    }

    clear_observer_bridge(&mut slot);
}

#[test]
fn unknown_action_is_noop() {
    let mut slot: ObserverSlot<&str> = ObserverSlot::new();
    clear_observer_bridge(&mut slot);
    set_observer_bridge(&mut slot, "capturing");

    let ev = LogEvent::new(Severity::Info, "totally_made_up", EventCategory::System);
    assert!(forward(&slot, &ev).is_none());
    clear_observer_bridge(&mut slot);
}

#[test]
fn without_an_observer_nothing_is_forwarded() {
    let mut slot: ObserverSlot<u8> = ObserverSlot::new();
    let ev = LogEvent::new(Severity::Info, "turn_complete", EventCategory::Agent);
    assert!(forward(&slot, &ev).is_none());
    set_observer_bridge(&mut slot, 1);
    set_observer_bridge(&mut slot, 2);
    let (observer, event) = forward(&slot, &ev).unwrap();
    assert_eq!(*observer, 2);
    assert!(matches!(event, ObserverEvent::TurnComplete));
    clear_observer_bridge(&mut slot);
    assert!(forward(&slot, &ev).is_none());
}

#[test]
fn projects_agent_start_and_end() {
    let mut ev = LogEvent::new(Severity::Info, "agent_start", EventCategory::Agent);
    ev.zeroclaw.set_model_provider_composite("plain");
    assert!(matches!(
        project(&ev).unwrap(),
        ObserverEvent::AgentStart { model_provider, model } if model_provider == "plain" && model.is_empty()
    ));

    let mut ev = LogEvent::new(Severity::Info, "agent_end", EventCategory::Agent);
    ev.zeroclaw.model = Some("m".into());
    ev.attributes = object(vec![
        ("tokens_used", whole(7)),
        ("cost_usd", Json::Number(JsonNumber::Float(0.25f64.to_bits()))),
    ]);
    match project(&ev).unwrap() {
        ObserverEvent::AgentEnd { model_provider, model, duration_ms, tokens_used, cost_usd } => {
            assert_eq!(model_provider, "");
            assert_eq!(model, "m");
            assert_eq!(duration_ms, 0);
            assert_eq!(tokens_used, Some(7));
            assert_eq!(cost_usd, Some(JsonNumber::Float(0.25f64.to_bits())));
        }
        other => panic!("{other:?}"),
    }
}

#[test]
fn projects_llm_response() {
    let mut ev = LogEvent::new(Severity::Info, "llm_response", EventCategory::Agent);
    ev.attributes = object(vec![
        ("error", Json::Text("boom".into())),
        ("input_tokens", whole(3)),
        ("output_tokens", Json::Text("4".into())),
    ]);
    ev.set_outcome(EventOutcome::Failure);
    match project(&ev).unwrap() {
        ObserverEvent::LlmResponse { success, error_message, input_tokens, output_tokens, .. } => {
            assert!(!success);
            assert_eq!(error_message.as_deref(), Some("boom"));
            assert_eq!(input_tokens, Some(3));
            assert_eq!(output_tokens, None);
        }
        other => panic!("{other:?}"),
    }
}

#[test]
fn projects_messages_and_errors() {
    let mut ev = LogEvent::new(Severity::Info, "channel_message_inbound", EventCategory::Channel);
    ev.zeroclaw.set_channel_composite("telegram.prod");
    assert!(matches!(
        project(&ev).unwrap(),
        ObserverEvent::ChannelMessage { channel, direction } if channel == "telegram.prod" && direction == "inbound"
    ));
    let ev = LogEvent::new(Severity::Info, "channel_send", EventCategory::Channel);
    assert!(matches!(
        project(&ev).unwrap(),
        ObserverEvent::ChannelMessage { channel, direction } if channel.is_empty() && direction == "outbound"
    ));
    let mut ev = LogEvent::new(Severity::Error, "error", EventCategory::System);
    ev.message = Some("it broke".into());
    assert!(matches!(
        project(&ev).unwrap(),
        ObserverEvent::Error { component, message } if component == "system" && message == "it broke"
    ));
    ev.zeroclaw.set_channel_composite("telegram.prod");
    assert!(matches!(
        project(&ev).unwrap(),
        ObserverEvent::Error { component, .. } if component == "telegram"
    ));
}

#[test]
fn projects_the_rest() {
    let mut ev = LogEvent::new(Severity::Info, "tool_call_start", EventCategory::Tool);
    ev.zeroclaw.tool = Some("shell".into());
    assert!(matches!(
        project(&ev).unwrap(),
        ObserverEvent::ToolCallStart { tool, arguments: None } if tool == "shell"
    ));
    let ev = LogEvent::new(Severity::Info, "tool_call_result", EventCategory::Tool);
    assert!(matches!(
        project(&ev).unwrap(),
        ObserverEvent::ToolCall { success: false, duration_ms: 0, .. }
    ));
    let ev = LogEvent::new(Severity::Info, "heartbeat_tick", EventCategory::System);
    assert!(matches!(project(&ev).unwrap(), ObserverEvent::HeartbeatTick));
}

#[test]
fn messages_and_other_attributes_do_not_cross() {
    let mut a = LogEvent::new(Severity::Info, "agent_end", EventCategory::Agent);
    a.message = Some("a long body".into());
    a.attributes = object(vec![("tokens_used", whole(7)), ("body", Json::Text("long".into()))]);
    let mut b = LogEvent::new(Severity::Debug, "agent_end", EventCategory::System);
    b.attributes = object(vec![("tokens_used", whole(7))]);
    assert_eq!(format!("{:?}", project(&a)), format!("{:?}", project(&b)));
}
