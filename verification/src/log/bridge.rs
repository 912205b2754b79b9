//! Projection of log events onto the observer's event types. Only actions
//! that have a type there are forwarded, and only to an observer that is
//! bound.

use vstd::prelude::*;

use super::event::{EventOutcome, LogEvent};
#[allow(unused_imports)]
use super::event::LogEventView;
use crate::json::JsonNumber;
#[allow(unused_imports)]
use crate::json::{holds, lemma_holds, JsonView};
use crate::text::{copy_or_empty, same_text};
#[allow(unused_imports)]
use crate::text::opt_text;

verus! {

/// An event as an observer takes it. Durations are in milliseconds.
#[derive(Debug)]
pub enum ObserverEvent {
    AgentStart { model_provider: String, model: String },
    AgentEnd {
        model_provider: String,
        model: String,
        duration_ms: u64,
        tokens_used: Option<u64>,
        cost_usd: Option<JsonNumber>,
    },
    LlmRequest { model_provider: String, model: String, messages_count: usize },
    LlmResponse {
        model_provider: String,
        model: String,
        duration_ms: u64,
        success: bool,
        error_message: Option<String>,
        input_tokens: Option<u64>,
        output_tokens: Option<u64>,
    },
    ToolCallStart { tool: String, arguments: Option<String> },
    ToolCall { tool: String, duration_ms: u64, success: bool },
    ChannelMessage { channel: String, direction: String },
    TurnComplete,
    HeartbeatTick,
    Error { component: String, message: String },
}

/// An observer event with its texts as sequences.
pub enum ObserverEventView {
    AgentStart { model_provider: Seq<char>, model: Seq<char> },
    AgentEnd {
        model_provider: Seq<char>,
        model: Seq<char>,
        duration_ms: u64,
        tokens_used: Option<u64>,
        cost_usd: Option<JsonNumber>,
    },
    LlmRequest { model_provider: Seq<char>, model: Seq<char>, messages_count: usize },
    LlmResponse {
        model_provider: Seq<char>,
        model: Seq<char>,
        duration_ms: u64,
        success: bool,
        error_message: Option<Seq<char>>,
        input_tokens: Option<u64>,
        output_tokens: Option<u64>,
    },
    ToolCallStart { tool: Seq<char>, arguments: Option<Seq<char>> },
    ToolCall { tool: Seq<char>, duration_ms: u64, success: bool },
    ChannelMessage { channel: Seq<char>, direction: Seq<char> },
    TurnComplete,
    HeartbeatTick,
    Error { component: Seq<char>, message: Seq<char> },
}

impl View for ObserverEvent {
    type V = ObserverEventView;

    open spec fn view(&self) -> ObserverEventView {
        match *self {
            ObserverEvent::AgentStart { model_provider, model } => ObserverEventView::AgentStart {
                model_provider: model_provider@,
                model: model@,
            },
            ObserverEvent::AgentEnd { model_provider, model, duration_ms, tokens_used, cost_usd } =>
            ObserverEventView::AgentEnd {
                model_provider: model_provider@,
                model: model@,
                duration_ms,
                tokens_used,
                cost_usd,
            },
            ObserverEvent::LlmRequest { model_provider, model, messages_count } =>
            ObserverEventView::LlmRequest {
                model_provider: model_provider@,
                model: model@,
                messages_count,
            },
            ObserverEvent::LlmResponse {
                model_provider,
                model,
                duration_ms,
                success,
                error_message,
                input_tokens,
                output_tokens,
            } => ObserverEventView::LlmResponse {
                model_provider: model_provider@,
                model: model@,
                duration_ms,
                success,
                error_message: opt_text(error_message),
                input_tokens,
                output_tokens,
            },
            ObserverEvent::ToolCallStart { tool, arguments } => ObserverEventView::ToolCallStart {
                tool: tool@,
                arguments: opt_text(arguments),
            },
            ObserverEvent::ToolCall { tool, duration_ms, success } => ObserverEventView::ToolCall {
                tool: tool@,
                duration_ms,
                success,
            },
            ObserverEvent::ChannelMessage { channel, direction } =>
            ObserverEventView::ChannelMessage { channel: channel@, direction: direction@ },
            ObserverEvent::TurnComplete => ObserverEventView::TurnComplete,
            ObserverEvent::HeartbeatTick => ObserverEventView::HeartbeatTick,
            ObserverEvent::Error { component, message } => ObserverEventView::Error {
                component: component@,
                message: message@,
            },
        }
    }
}

/// The text that is there, the empty text otherwise.
pub open spec fn or_empty(o: Option<Seq<char>>) -> Seq<char> {
    match o {
        Some(s) => s,
        None => Seq::empty(),
    }
}

/// The number that is there, zero otherwise.
pub open spec fn or_zero(o: Option<u64>) -> u64 {
    match o {
        Some(n) => n,
        None => 0,
    }
}

/// The provider that an observer is told of: its type where that is known.
pub open spec fn provider_shown(e: LogEventView) -> Seq<char> {
    match e.zeroclaw.model_provider_type {
        Some(t) => t,
        None => or_empty(e.zeroclaw.model_provider),
    }
}

/// The observer event for a log event. An action without a type of its own
/// has none.
pub open spec fn projected(e: LogEventView) -> Option<ObserverEventView> {
    let model_provider = provider_shown(e);
    let model = or_empty(e.zeroclaw.model);
    let duration_ms = or_zero(e.zeroclaw.duration_ms);
    let success = e.outcome == EventOutcome::Success;
    let tool = or_empty(e.zeroclaw.tool);
    let channel = or_empty(e.zeroclaw.channel);
    if e.action == "agent_start"@ {
        Some(ObserverEventView::AgentStart { model_provider, model })
    } else if e.action == "agent_end"@ {
        Some(
            ObserverEventView::AgentEnd {
                model_provider,
                model,
                duration_ms,
                tokens_used: e.attributes.whole_member("tokens_used"@),
                cost_usd: e.attributes.number_member("cost_usd"@),
            },
        )
    } else if e.action == "llm_request"@ {
        Some(
            ObserverEventView::LlmRequest {
                model_provider,
                model,
                messages_count: or_zero(e.attributes.whole_member("messages_count"@)) as usize,
            },
        )
    } else if e.action == "llm_response"@ {
        Some(
            ObserverEventView::LlmResponse {
                model_provider,
                model,
                duration_ms,
                success,
                error_message: e.attributes.text_member("error"@),
                input_tokens: e.attributes.whole_member("input_tokens"@),
                output_tokens: e.attributes.whole_member("output_tokens"@),
            },
        )
    } else if e.action == "tool_call_start"@ {
        Some(ObserverEventView::ToolCallStart { tool, arguments: None })
    } else if e.action == "tool_call"@ || e.action == "tool_call_result"@ {
        Some(ObserverEventView::ToolCall { tool, duration_ms, success })
    } else if e.action == "channel_message_inbound"@ {
        Some(ObserverEventView::ChannelMessage { channel, direction: "inbound"@ })
    } else if e.action == "channel_send"@ {
        Some(ObserverEventView::ChannelMessage { channel, direction: "outbound"@ })
    } else if e.action == "turn_complete"@ {
        Some(ObserverEventView::TurnComplete)
    } else if e.action == "heartbeat_tick"@ {
        Some(ObserverEventView::HeartbeatTick)
    } else if e.action == "error"@ {
        Some(
            ObserverEventView::Error {
                component: match e.zeroclaw.channel_type {
                    Some(t) => t,
                    None => "system"@,
                },
                message: or_empty(e.message),
            },
        )
    } else {
        None
    }
}

/// The observer event for a log event.
pub fn project(event: &LogEvent) -> (out: Option<ObserverEvent>)
    ensures
        match out {
            Some(o) => projected(event@) == Some(o@),
            None => projected(event@) is None,
        },
        match out {
            Some(ObserverEvent::LlmResponse { success, .. }) => success <==> event.event.outcome
                is Success,
            Some(ObserverEvent::ToolCall { success, .. }) => success <==> event.event.outcome
                is Success,
            _ => true,
        },
{
    let action: &str = event.event.action.as_str();
    let attribution = &event.zeroclaw;
    let model_provider: String = match &attribution.model_provider_type {
        Some(t) => t.clone(),
        None => copy_or_empty(&attribution.model_provider),
    };
    let model = copy_or_empty(&attribution.model);
    let duration_ms: u64 = match attribution.duration_ms {
        Some(n) => n,
        None => 0,
    };
    let success: bool = event.event.outcome == EventOutcome::Success;
    if same_text(action, "agent_start") {
        Some(ObserverEvent::AgentStart { model_provider, model })
    } else if same_text(action, "agent_end") {
        Some(
            ObserverEvent::AgentEnd {
                model_provider,
                model,
                duration_ms,
                tokens_used: event.attributes.get_whole("tokens_used"),
                cost_usd: event.attributes.get_number("cost_usd"),
            },
        )
    } else if same_text(action, "llm_request") {
        let count: u64 = match event.attributes.get_whole("messages_count") {
            Some(n) => n,
            None => 0,
        };
        Some(ObserverEvent::LlmRequest { model_provider, model, messages_count: count as usize })
    } else if same_text(action, "llm_response") {
        Some(
            ObserverEvent::LlmResponse {
                model_provider,
                model,
                duration_ms,
                success,
                error_message: event.attributes.get_text("error"),
                input_tokens: event.attributes.get_whole("input_tokens"),
                output_tokens: event.attributes.get_whole("output_tokens"),
            },
        )
    } else if same_text(action, "tool_call_start") {
        Some(
            ObserverEvent::ToolCallStart {
                tool: copy_or_empty(&attribution.tool),
                arguments: None,
            },
        )
    } else if same_text(action, "tool_call") || same_text(action, "tool_call_result") {
        Some(
            ObserverEvent::ToolCall {
                tool: copy_or_empty(&attribution.tool),
                duration_ms,
                success,
            },
        )
    } else if same_text(action, "channel_message_inbound") {
        Some(
            ObserverEvent::ChannelMessage {
                channel: copy_or_empty(&attribution.channel),
                direction: "inbound".to_owned(),
            },
        )
    } else if same_text(action, "channel_send") {
        Some(
            ObserverEvent::ChannelMessage {
                channel: copy_or_empty(&attribution.channel),
                direction: "outbound".to_owned(),
            },
        )
    } else if same_text(action, "turn_complete") {
        Some(ObserverEvent::TurnComplete)
    } else if same_text(action, "heartbeat_tick") {
        Some(ObserverEvent::HeartbeatTick)
    } else if same_text(action, "error") {
        Some(
            ObserverEvent::Error {
                component: match &attribution.channel_type {
                    Some(t) => t.clone(),
                    None => "system".to_owned(),
                },
                message: copy_or_empty(&event.message),
            },
        )
    } else {
        None
    }
}

/// The place where an observer is bound.
#[derive(Debug)]
pub struct ObserverSlot<O> {
    pub bound: Option<O>,
}

impl<O> ObserverSlot<O> {
    /// No observer is bound.
    pub fn new() -> (out: Self)
        ensures
            out.bound is None,
    {
        ObserverSlot { bound: None }
    }
}

/// Binds `observer`, in place of the one that was bound.
pub fn set_observer_bridge<O>(slot: &mut ObserverSlot<O>, observer: O)
    ensures
        final(slot).bound == Some(observer),
{
    slot.bound = Some(observer);
}

/// Leaves no observer bound.
pub fn clear_observer_bridge<O>(slot: &mut ObserverSlot<O>)
    ensures
        final(slot).bound is None,
{
    slot.bound = None;
}

/// The bound observer and the event that it is to record, where an observer
/// is bound and the log event has a type there.
pub fn forward<'a, O>(slot: &'a ObserverSlot<O>, event: &LogEvent) -> (out: Option<
    (&'a O, ObserverEvent),
>)
    ensures
        out is Some <==> slot.bound is Some && projected(event@) is Some,
        match out {
            Some(p) => slot.bound == Some(*p.0) && projected(event@) == Some(p.1@),
            None => true,
        },
{
    match &slot.bound {
        Some(observer) => match project(event) {
            Some(o) => Some((observer, o)),
            None => None,
        },
        None => None,
    }
}

// ---------------------------------------------------------------------------
// Laws
// ---------------------------------------------------------------------------

/// The actions that an observer is told of.
pub open spec fn is_observed(action: Seq<char>) -> bool {
    ||| action == "agent_start"@
    ||| action == "agent_end"@
    ||| action == "llm_request"@
    ||| action == "llm_response"@
    ||| action == "tool_call_start"@
    ||| action == "tool_call"@
    ||| action == "tool_call_result"@
    ||| action == "channel_message_inbound"@
    ||| action == "channel_send"@
    ||| action == "turn_complete"@
    ||| action == "heartbeat_tick"@
    ||| action == "error"@
}

/// Whether an observer is told of an event is a matter of its action alone.
pub proof fn law_projection_goes_by_action(e: LogEventView)
    ensures
        projected(e) is Some <==> is_observed(e.action),
{
}

/// The message of an event does not reach an observer. Left out are errors,
/// which are told by their message.
pub proof fn law_message_stays_behind(e: LogEventView, message: Option<Seq<char>>)
    requires
        e.action != "error"@,
    ensures
        projected(LogEventView { message, ..e }) == projected(e),
{
}

/// Two sets of attributes agree on what is measured.
pub open spec fn same_measures(a: JsonView, b: JsonView) -> bool {
    &&& a.whole_member("tokens_used"@) == b.whole_member("tokens_used"@)
    &&& a.number_member("cost_usd"@) == b.number_member("cost_usd"@)
    &&& a.whole_member("messages_count"@) == b.whole_member("messages_count"@)
    &&& a.text_member("error"@) == b.text_member("error"@)
    &&& a.whole_member("input_tokens"@) == b.whole_member("input_tokens"@)
    &&& a.whole_member("output_tokens"@) == b.whole_member("output_tokens"@)
}

/// Of the attributes of an event, only what is measured reaches an observer.
pub proof fn law_only_measures_cross(e: LogEventView, attributes: JsonView)
    requires
        same_measures(attributes, e.attributes),
    ensures
        projected(LogEventView { attributes, ..e }) == projected(e),
{
}

/// The names of the observed actions differ.
proof fn lemma_actions_differ()
    ensures
        "agent_start"@.len() == 11,
        "agent_end"@.len() == 9,
        "llm_request"@.len() == 11,
        "llm_response"@.len() == 12,
        "tool_call_start"@.len() == 15,
        "tool_call"@.len() == 9,
        "tool_call_result"@.len() == 16,
        "channel_message_inbound"@.len() == 23,
        "channel_send"@.len() == 12,
        "turn_complete"@.len() == 13,
        "heartbeat_tick"@.len() == 14,
        "error"@.len() == 5,
        "agent_start"@ != "llm_request"@,
        "agent_end"@ != "tool_call"@,
        "llm_response"@ != "channel_send"@,
{
    reveal_strlit("agent_start");
    reveal_strlit("agent_end");
    reveal_strlit("llm_request");
    reveal_strlit("llm_response");
    reveal_strlit("tool_call_start");
    reveal_strlit("tool_call");
    reveal_strlit("tool_call_result");
    reveal_strlit("channel_message_inbound");
    reveal_strlit("channel_send");
    reveal_strlit("turn_complete");
    reveal_strlit("heartbeat_tick");
    reveal_strlit("error");
    assert("agent_start"@[0] == 'a' && "llm_request"@[0] == 'l');
    assert("agent_end"@[0] == 'a' && "tool_call"@[0] == 't');
    assert("llm_response"@[0] == 'l' && "channel_send"@[0] == 'c');
}

/// Which kind of observer event an action becomes, each action with the kind
/// of its own.
pub proof fn law_action_gives_the_kind(e: LogEventView)
    ensures
        e.action == "agent_start"@ <==> projected(e) matches Some(
            ObserverEventView::AgentStart { .. },
        ),
        e.action == "agent_end"@ <==> projected(e) matches Some(ObserverEventView::AgentEnd { .. }),
        e.action == "llm_request"@ <==> projected(e) matches Some(
            ObserverEventView::LlmRequest { .. },
        ),
        e.action == "llm_response"@ <==> projected(e) matches Some(
            ObserverEventView::LlmResponse { .. },
        ),
        e.action == "tool_call_start"@ <==> projected(e) matches Some(
            ObserverEventView::ToolCallStart { .. },
        ),
        e.action == "tool_call"@ || e.action == "tool_call_result"@ <==> projected(e) matches Some(
            ObserverEventView::ToolCall { .. },
        ),
        e.action == "channel_message_inbound"@ || e.action == "channel_send"@ <==> projected(
            e,
        ) matches Some(ObserverEventView::ChannelMessage { .. }),
        e.action == "turn_complete"@ <==> projected(e) matches Some(
            ObserverEventView::TurnComplete,
        ),
        e.action == "heartbeat_tick"@ <==> projected(e) matches Some(
            ObserverEventView::HeartbeatTick,
        ),
        e.action == "error"@ <==> projected(e) matches Some(ObserverEventView::Error { .. }),
{
    lemma_actions_differ();
}

/// A model's response or a tool's call is told as a success exactly where the
/// event says that it ended well.
pub proof fn law_success_is_told_as_it_was(e: LogEventView)
    ensures
        match projected(e) {
            Some(ObserverEventView::LlmResponse { success, .. }) => success <==> e.outcome
                is Success,
            Some(ObserverEventView::ToolCall { success, .. }) => success <==> e.outcome is Success,
            _ => true,
        },
{
}

/// The text is the one that is there, and empty where there is none.
pub open spec fn shows(shown: Seq<char>, text: Option<Seq<char>>) -> bool {
    &&& text is Some ==> shown == text->0
    &&& text is None ==> shown.len() == 0
}

/// The number is the one that is there, and zero where there is none.
pub open spec fn counts(shown: u64, number: Option<u64>) -> bool {
    &&& number is Some ==> shown == number->0
    &&& number is None ==> shown == 0
}

/// The provider that is shown is the provider's type, else the provider, else
/// empty.
pub open spec fn shows_provider(shown: Seq<char>, e: LogEventView) -> bool {
    &&& e.zeroclaw.model_provider_type is Some ==> shown == e.zeroclaw.model_provider_type->0
    &&& e.zeroclaw.model_provider_type is None ==> shows(shown, e.zeroclaw.model_provider)
}

/// Each field of an observer event is the field of the log event that it
/// stands for.
pub proof fn law_observer_event_tells_the_log_event(e: LogEventView)
    ensures
        match projected(e) {
            Some(ObserverEventView::AgentStart { model_provider, model }) => {
                &&& shows_provider(model_provider, e)
                &&& shows(model, e.zeroclaw.model)
            },
            Some(
                ObserverEventView::AgentEnd {
                    model_provider,
                    model,
                    duration_ms,
                    tokens_used,
                    cost_usd,
                },
            ) => {
                &&& shows_provider(model_provider, e)
                &&& shows(model, e.zeroclaw.model)
                &&& counts(duration_ms, e.zeroclaw.duration_ms)
                &&& forall|n: u64|
                    tokens_used == Some(n) <==> #[trigger] holds(
                        e.attributes,
                        "tokens_used"@,
                        JsonView::Number(JsonNumber::PosInt(n)),
                    )
                &&& forall|n: JsonNumber|
                    cost_usd == Some(n) <==> #[trigger] holds(
                        e.attributes,
                        "cost_usd"@,
                        JsonView::Number(n),
                    )
            },
            Some(ObserverEventView::LlmRequest { model_provider, model, messages_count }) => {
                &&& shows_provider(model_provider, e)
                &&& shows(model, e.zeroclaw.model)
                &&& forall|n: u64|
                    n <= usize::MAX && #[trigger] holds(
                        e.attributes,
                        "messages_count"@,
                        JsonView::Number(JsonNumber::PosInt(n)),
                    ) ==> messages_count == n
                &&& (forall|n: u64|
                    !#[trigger] holds(
                        e.attributes,
                        "messages_count"@,
                        JsonView::Number(JsonNumber::PosInt(n)),
                    )) ==> messages_count == 0
            },
            Some(
                ObserverEventView::LlmResponse {
                    model_provider,
                    model,
                    duration_ms,
                    success,
                    error_message,
                    input_tokens,
                    output_tokens,
                },
            ) => {
                &&& shows_provider(model_provider, e)
                &&& shows(model, e.zeroclaw.model)
                &&& counts(duration_ms, e.zeroclaw.duration_ms)
                &&& success <==> e.outcome is Success
                &&& forall|s: Seq<char>|
                    error_message == Some(s) <==> #[trigger] holds(
                        e.attributes,
                        "error"@,
                        JsonView::Text(s),
                    )
                &&& forall|n: u64|
                    input_tokens == Some(n) <==> #[trigger] holds(
                        e.attributes,
                        "input_tokens"@,
                        JsonView::Number(JsonNumber::PosInt(n)),
                    )
                &&& forall|n: u64|
                    output_tokens == Some(n) <==> #[trigger] holds(
                        e.attributes,
                        "output_tokens"@,
                        JsonView::Number(JsonNumber::PosInt(n)),
                    )
            },
            Some(ObserverEventView::ToolCallStart { tool, arguments }) => {
                &&& shows(tool, e.zeroclaw.tool)
                &&& arguments is None
            },
            Some(ObserverEventView::ToolCall { tool, duration_ms, success }) => {
                &&& shows(tool, e.zeroclaw.tool)
                &&& counts(duration_ms, e.zeroclaw.duration_ms)
                &&& success <==> e.outcome is Success
            },
            Some(ObserverEventView::ChannelMessage { channel, direction }) => {
                &&& shows(channel, e.zeroclaw.channel)
                &&& e.action == "channel_message_inbound"@ ==> direction == "inbound"@
                &&& e.action == "channel_send"@ ==> direction == "outbound"@
            },
            Some(ObserverEventView::Error { component, message }) => {
                &&& e.zeroclaw.channel_type is Some ==> component == e.zeroclaw.channel_type->0
                &&& e.zeroclaw.channel_type is None ==> component == "system"@
                &&& shows(message, e.message)
            },
            Some(ObserverEventView::TurnComplete) => true,
            Some(ObserverEventView::HeartbeatTick) => true,
            None => true,
        },
{
    lemma_actions_differ();
    lemma_holds(e.attributes, "tokens_used"@);
    lemma_holds(e.attributes, "cost_usd"@);
    lemma_holds(e.attributes, "messages_count"@);
    lemma_holds(e.attributes, "error"@);
    lemma_holds(e.attributes, "input_tokens"@);
    lemma_holds(e.attributes, "output_tokens"@);
    if projected(e) matches Some(ObserverEventView::LlmRequest { .. }) {
        if let Some(n) = e.attributes.whole_member("messages_count"@) {
            assert(holds(
                e.attributes,
                "messages_count"@,
                JsonView::Number(JsonNumber::PosInt(n)),
            ));
        }
    }
}

} // verus!
