//! What holds of captured events, said of each field by itself.

use vstd::prelude::*;

#[allow(unused_imports)]
use super::event::{
    composite_type, law_category_words_are_distinct, law_outcome_words_are_distinct, EventCategory,
    EventOutcome, LogEvent, LogEventView, Severity,
};
#[allow(unused_imports)]
use super::layer::{
    captured, chain_text, is_internal, nearest, place, separator, target_head, target_tail,
    unquoted, FieldsView, Marker, SpanMarkers,
};
#[allow(unused_imports)]
use crate::json::{signed, JsonNumber, JsonView};
#[allow(unused_imports)]
use crate::text::{find, first_at, lemma_find_first, lemma_find_is, occurs_at, trim};

verus! {

/// The event that is captured has the severity of the call.
pub proof fn law_severity_is_the_calls(
    severity: Severity,
    target: Seq<char>,
    fields: FieldsView,
    spans: Seq<SpanMarkers>,
    attributes: JsonView,
)
    ensures
        captured(severity, target, fields, spans, attributes).severity == severity,
{
}

/// Calls that differ in severity alone give events that differ in severity
/// alone.
pub proof fn law_severity_changes_nothing_else(
    a: Severity,
    b: Severity,
    target: Seq<char>,
    fields: FieldsView,
    spans: Seq<SpanMarkers>,
    attributes: JsonView,
)
    ensures
        captured(b, target, fields, spans, attributes) == (LogEventView {
            severity: b,
            ..captured(a, target, fields, spans, attributes)
        }),
{
}

/// The action of an event is the one that its fields name.
pub proof fn law_named_action_is_taken(
    severity: Severity,
    target: Seq<char>,
    fields: FieldsView,
    spans: Seq<SpanMarkers>,
    attributes: JsonView,
)
    requires
        fields.action is Some,
    ensures
        captured(severity, target, fields, spans, attributes).action == fields.action->0,
{
}

/// Where the fields name no action, it is the last segment of the target: an
/// end of it that holds no further separator and begins the target or follows
/// a separator.
pub proof fn law_action_is_the_last_segment(
    severity: Severity,
    target: Seq<char>,
    fields: FieldsView,
    spans: Seq<SpanMarkers>,
    attributes: JsonView,
)
    requires
        fields.action is None,
    ensures
        ({
            let action = captured(severity, target, fields, spans, attributes).action;
            let from = target.len() - action.len();
            &&& action.is_suffix_of(target)
            &&& forall|i: int| 0 <= i < action.len() - 1 ==> !(#[trigger] action[i] == ':' && action[
                i + 1] == ':')
            &&& from == 0 || from >= 2 && target[from - 1] == ':' && target[from - 2] == ':'
        }),
{
    lemma_target_tail(target);
}

proof fn lemma_target_tail(target: Seq<char>)
    ensures
        ({
            let tail = target_tail(target);
            let from = target.len() - tail.len();
            &&& tail.is_suffix_of(target)
            &&& forall|i: int| 0 <= i < tail.len() - 1 ==> !(#[trigger] tail[i] == ':' && tail[i + 1]
                == ':')
            &&& from == 0 || from >= 2 && target[from - 1] == ':' && target[from - 2] == ':'
        }),
    decreases target.len(),
{
    lemma_find_first(target, separator());
    match find(target, separator()) {
        Some(i) => {
            let rest = target.skip(i + 2);
            lemma_target_tail(rest);
            let tail = target_tail(rest);
            let from = target.len() - tail.len();
            assert(target.subrange(i, i + 2)[0] == ':' && target.subrange(i, i + 2)[1] == ':');
            assert(rest.subrange(rest.len() - tail.len(), rest.len() as int) =~= target.subrange(
                from,
                target.len() as int,
            ));
            if rest.len() > tail.len() {
                assert(target[from - 1] == rest[rest.len() - tail.len() - 1]);
                assert(target[from - 2] == rest[rest.len() - tail.len() - 2]);
            } else {
                assert(from == i + 2);
                assert(target[i] == target.subrange(i, i + 2)[0]);
                assert(target[i + 1] == target.subrange(i, i + 2)[1]);
            }
        },
        None => {
            assert forall|i: int| 0 <= i < target.len() - 1 implies !(#[trigger] target[i] == ':'
                && target[i + 1] == ':') by {
                if target[i] == ':' && target[i + 1] == ':' {
                    assert(target.subrange(i, i + 2) =~= separator());
                    assert(occurs_at(target, separator(), i));
                }
            }
            assert(target.subrange(0, target.len() as int) =~= target);
        },
    }
}

/// What the spans say reaches the attribution of an event and nothing else of
/// it.
pub proof fn law_spans_change_attribution_alone(
    severity: Severity,
    target: Seq<char>,
    fields: FieldsView,
    spans: Seq<SpanMarkers>,
    others: Seq<SpanMarkers>,
    attributes: JsonView,
)
    ensures
        ({
            let a = captured(severity, target, fields, spans, attributes);
            let b = captured(severity, target, fields, others, attributes);
            a == (LogEventView { zeroclaw: a.zeroclaw, ..b })
        }),
{
}

/// What is not said of whom an event belongs to, is not made up: without
/// spans, its attribution is what its fields say.
pub proof fn law_attribution_without_spans(
    severity: Severity,
    target: Seq<char>,
    fields: FieldsView,
    attributes: JsonView,
)
    ensures
        ({
            let z = captured(severity, target, fields, Seq::empty(), attributes).zeroclaw;
            &&& fields.agent_alias is Some ==> z.agent_alias == fields.agent_alias
            &&& fields.agent_alias is None ==> z.agent_alias == fields.agent
            &&& z.channel == fields.channel
            &&& z.model_provider == fields.model_provider
            &&& z.model == fields.model
            &&& z.tool == fields.tool
            &&& z.session_key == fields.session_key
            &&& z.cron_job_id == fields.cron_job_id
            &&& z.duration_ms == fields.duration_ms
            &&& is_type_of(z.channel_type, fields.channel)
            &&& is_type_of(z.model_provider_type, fields.model_provider)
        }),
{
    lemma_is_type_of(fields.channel);
    lemma_is_type_of(fields.model_provider);
}

/// `kind` is what stands before the first dot of `composite`; there is none
/// without a dot.
pub open spec fn is_type_of(kind: Option<Seq<char>>, composite: Option<Seq<char>>) -> bool {
    match kind {
        Some(k) => {
            &&& composite is Some
            &&& k.len() < composite->0.len()
            &&& k.is_prefix_of(composite->0)
            &&& composite->0[k.len() as int] == '.'
            &&& !k.contains('.')
        },
        None => composite is Some ==> !composite->0.contains('.'),
    }
}

proof fn lemma_is_type_of(composite: Option<Seq<char>>)
    ensures
        composite is Some ==> is_type_of(composite_type(composite->0), composite),
        is_type_of(None, None),
{
    if let Some(c) = composite {
        crate::text::lemma_find_char(c, '.');
        if let Some(i) = crate::text::find_char(c, '.') {
            assert(c.take(i).is_prefix_of(c));
        }
    }
}

/// What an event does not say itself it has from the innermost span that says
/// it, however many spans that say nothing of it stand between.
pub proof fn law_attribution_comes_from_the_span_that_speaks(
    severity: Severity,
    target: Seq<char>,
    fields: FieldsView,
    quiet: Seq<SpanMarkers>,
    span: SpanMarkers,
    outer: Seq<SpanMarkers>,
    attributes: JsonView,
)
    ensures
        ({
            let z = captured(
                severity,
                target,
                fields,
                quiet + seq![span] + outer,
                attributes,
            ).zeroclaw;
            &&& fields.agent_alias is None && fields.agent is None && span.agent_alias is Some && (
            forall|i: int| 0 <= i < quiet.len() ==> (#[trigger] quiet[i]).agent_alias is None)
                ==> z.agent_alias == Some(span.agent_alias->0.alias@)
            &&& fields.session_key is None && span.session_key is Some && (forall|i: int|
                0 <= i < quiet.len() ==> (#[trigger] quiet[i]).session_key is None)
                ==> z.session_key == Some(span.session_key->0.key@)
            &&& fields.cron_job_id is None && span.cron_job_id is Some && (forall|i: int|
                0 <= i < quiet.len() ==> (#[trigger] quiet[i]).cron_job_id is None)
                ==> z.cron_job_id == Some(span.cron_job_id->0.id@)
            &&& fields.channel is None && span.channel is Some && (forall|i: int|
                0 <= i < quiet.len() ==> (#[trigger] quiet[i]).channel is None) ==> z.channel
                == Some(span.channel->0.composite@) && is_type_of(z.channel_type, z.channel)
        }),
{
    let all = quiet + seq![span] + outer;
    if forall|i: int| 0 <= i < quiet.len() ==> (#[trigger] quiet[i]).agent_alias is None {
        lemma_nearest_past(quiet, span, outer, Marker::AgentAlias);
    }
    if forall|i: int| 0 <= i < quiet.len() ==> (#[trigger] quiet[i]).session_key is None {
        lemma_nearest_past(quiet, span, outer, Marker::SessionKey);
    }
    if forall|i: int| 0 <= i < quiet.len() ==> (#[trigger] quiet[i]).cron_job_id is None {
        lemma_nearest_past(quiet, span, outer, Marker::CronJobId);
    }
    if forall|i: int| 0 <= i < quiet.len() ==> (#[trigger] quiet[i]).channel is None {
        lemma_nearest_past(quiet, span, outer, Marker::Channel);
        if span.channel is Some {
            lemma_is_type_of(Some(span.channel->0.composite@));
        }
    }
}

proof fn lemma_nearest_past(
    quiet: Seq<SpanMarkers>,
    span: SpanMarkers,
    outer: Seq<SpanMarkers>,
    marker: Marker,
)
    requires
        forall|i: int| 0 <= i < quiet.len() ==> (#[trigger] quiet[i]).says(marker) is None,
    ensures
        span.says(marker) is Some ==> nearest(quiet + seq![span] + outer, marker) == span.says(
            marker,
        ),
    decreases quiet.len(),
{
    let all = quiet + seq![span] + outer;
    if quiet.len() == 0 {
        assert(all[0] == span);
    } else {
        let rest = quiet.drop_first();
        assert(all[0] == quiet[0]);
        assert(all.drop_first() =~= rest + seq![span] + outer);
        assert forall|i: int| 0 <= i < rest.len() implies (#[trigger] rest[i]).says(
            marker,
        ) is None by {
            assert(rest[i] == quiet[i + 1]);
        }
        lemma_nearest_past(rest, span, outer, marker);
    }
}

/// Where neither the event nor any span says it, it stays unsaid.
pub proof fn law_nobody_speaks_for_silent_spans(
    severity: Severity,
    target: Seq<char>,
    fields: FieldsView,
    spans: Seq<SpanMarkers>,
    attributes: JsonView,
)
    ensures
        ({
            let z = captured(severity, target, fields, spans, attributes).zeroclaw;
            &&& fields.agent_alias is None && fields.agent is None && (forall|i: int|
                0 <= i < spans.len() ==> (#[trigger] spans[i]).agent_alias is None)
                ==> z.agent_alias is None
            &&& fields.session_key is None && (forall|i: int|
                0 <= i < spans.len() ==> (#[trigger] spans[i]).session_key is None)
                ==> z.session_key is None
            &&& fields.cron_job_id is None && (forall|i: int|
                0 <= i < spans.len() ==> (#[trigger] spans[i]).cron_job_id is None)
                ==> z.cron_job_id is None
            &&& fields.channel is None && (forall|i: int|
                0 <= i < spans.len() ==> (#[trigger] spans[i]).channel is None) ==> z.channel
                is None && z.channel_type is None
        }),
{
    if forall|i: int| 0 <= i < spans.len() ==> (#[trigger] spans[i]).agent_alias is None {
        lemma_nearest_none(spans, Marker::AgentAlias);
    }
    if forall|i: int| 0 <= i < spans.len() ==> (#[trigger] spans[i]).session_key is None {
        lemma_nearest_none(spans, Marker::SessionKey);
    }
    if forall|i: int| 0 <= i < spans.len() ==> (#[trigger] spans[i]).cron_job_id is None {
        lemma_nearest_none(spans, Marker::CronJobId);
    }
    if forall|i: int| 0 <= i < spans.len() ==> (#[trigger] spans[i]).channel is None {
        lemma_nearest_none(spans, Marker::Channel);
    }
}

proof fn lemma_nearest_none(spans: Seq<SpanMarkers>, marker: Marker)
    requires
        forall|i: int| 0 <= i < spans.len() ==> (#[trigger] spans[i]).says(marker) is None,
    ensures
        nearest(spans, marker) is None,
    decreases spans.len(),
{
    if spans.len() > 0 {
        let rest = spans.drop_first();
        assert forall|i: int| 0 <= i < rest.len() implies (#[trigger] rest[i]).says(
            marker,
        ) is None by {
            assert(rest[i] == spans[i + 1]);
        }
        lemma_nearest_none(rest, marker);
    }
}

/// What an event says itself of whom it belongs to, it keeps inside any
/// spans.
pub proof fn law_own_attribution_is_kept(
    severity: Severity,
    target: Seq<char>,
    fields: FieldsView,
    spans: Seq<SpanMarkers>,
    attributes: JsonView,
)
    ensures
        ({
            let z = captured(severity, target, fields, spans, attributes).zeroclaw;
            &&& fields.agent_alias is Some ==> z.agent_alias == fields.agent_alias
            &&& fields.agent_alias is None && fields.agent is Some ==> z.agent_alias == fields.agent
            &&& fields.channel is Some ==> z.channel == fields.channel && is_type_of(
                z.channel_type,
                fields.channel,
            )
            &&& fields.session_key is Some ==> z.session_key == fields.session_key
            &&& fields.cron_job_id is Some ==> z.cron_job_id == fields.cron_job_id
            &&& z.model_provider == fields.model_provider
            &&& is_type_of(z.model_provider_type, fields.model_provider)
            &&& z.model == fields.model
            &&& z.tool == fields.tool
            &&& z.duration_ms == fields.duration_ms
        }),
{
    lemma_is_type_of(fields.channel);
    lemma_is_type_of(fields.model_provider);
}

/// The message of an event is the call's, empty where it has none; its trace
/// and span are the call's; its attributes are those that were made for it.
pub proof fn law_message_and_ids_are_the_calls(
    severity: Severity,
    target: Seq<char>,
    fields: FieldsView,
    spans: Seq<SpanMarkers>,
    attributes: JsonView,
)
    ensures
        ({
            let e = captured(severity, target, fields, spans, attributes);
            &&& e.message is Some
            &&& fields.message is Some ==> e.message == fields.message
            &&& fields.message is None ==> e.message->0.len() == 0
            &&& e.trace_id == fields.trace_id
            &&& e.span_id == fields.span_id
            &&& e.attributes == attributes
        }),
{
}

/// The names with a place of their own differ.
proof fn lemma_names_differ()
    ensures
        "event"@.len() == 5,
        "category"@.len() == 8,
        "outcome"@.len() == 7,
        "agent"@.len() == 5,
        "agent_alias"@.len() == 11,
        "parent_alias"@.len() == 12,
        "channel"@.len() == 7,
        "model_provider"@.len() == 14,
        "model"@.len() == 5,
        "tool"@.len() == 4,
        "session_key"@.len() == 11,
        "cron_job_id"@.len() == 11,
        "trace_id"@.len() == 8,
        "span_id"@.len() == 7,
        "message"@.len() == 7,
        "event"@ != "agent"@,
        "event"@ != "model"@,
        "category"@ != "trace_id"@,
        "outcome"@ != "channel"@,
        "outcome"@ != "span_id"@,
        "outcome"@ != "message"@,
        "agent"@ != "model"@,
        "agent_alias"@ != "session_key"@,
        "agent_alias"@ != "cron_job_id"@,
        "channel"@ != "span_id"@,
        "channel"@ != "message"@,
        "session_key"@ != "cron_job_id"@,
        "span_id"@ != "message"@,
{
    reveal_strlit("event");
    reveal_strlit("category");
    reveal_strlit("outcome");
    reveal_strlit("agent");
    reveal_strlit("agent_alias");
    reveal_strlit("parent_alias");
    reveal_strlit("channel");
    reveal_strlit("model_provider");
    reveal_strlit("model");
    reveal_strlit("tool");
    reveal_strlit("session_key");
    reveal_strlit("cron_job_id");
    reveal_strlit("trace_id");
    reveal_strlit("span_id");
    reveal_strlit("message");
    assert("event"@[0] == 'e' && "agent"@[0] == 'a');
    assert("event"@[0] == 'e' && "model"@[0] == 'm');
    assert("category"@[0] == 'c' && "trace_id"@[0] == 't');
    assert("outcome"@[0] == 'o' && "channel"@[0] == 'c');
    assert("outcome"@[0] == 'o' && "span_id"@[0] == 's');
    assert("outcome"@[0] == 'o' && "message"@[0] == 'm');
    assert("agent"@[0] == 'a' && "model"@[0] == 'm');
    assert("agent_alias"@[0] == 'a' && "session_key"@[0] == 's');
    assert("agent_alias"@[0] == 'a' && "cron_job_id"@[0] == 'c');
    assert("channel"@[0] == 'c' && "span_id"@[0] == 's');
    assert("channel"@[0] == 'c' && "message"@[0] == 'm');
    assert("session_key"@[0] == 's' && "cron_job_id"@[0] == 'c');
    assert("span_id"@[0] == 's' && "message"@[0] == 'm');
}

/// A text recorded under a name with a place of its own is put in that place,
/// and nothing else changes.
pub proof fn law_text_goes_to_its_place(fields: FieldsView, text: Seq<char>)
    ensures
        fields.recorded("event"@, JsonView::Text(text)) == (FieldsView {
            action: Some(text),
            ..fields
        }),
        fields.recorded("category"@, JsonView::Text(text)) == (FieldsView {
            category: Some(text),
            ..fields
        }),
        fields.recorded("outcome"@, JsonView::Text(text)) == (FieldsView {
            outcome: Some(text),
            ..fields
        }),
        fields.recorded("agent"@, JsonView::Text(text)) == (FieldsView {
            agent: Some(text),
            ..fields
        }),
        fields.recorded("agent_alias"@, JsonView::Text(text)) == (FieldsView {
            agent_alias: Some(text),
            ..fields
        }),
        fields.recorded("parent_alias"@, JsonView::Text(text)) == (FieldsView {
            agent_alias: Some(text),
            ..fields
        }),
        fields.recorded("channel"@, JsonView::Text(text)) == (FieldsView {
            channel: Some(text),
            ..fields
        }),
        fields.recorded("model_provider"@, JsonView::Text(text)) == (FieldsView {
            model_provider: Some(text),
            ..fields
        }),
        fields.recorded("model"@, JsonView::Text(text)) == (FieldsView {
            model: Some(text),
            ..fields
        }),
        fields.recorded("tool"@, JsonView::Text(text)) == (FieldsView {
            tool: Some(text),
            ..fields
        }),
        fields.recorded("session_key"@, JsonView::Text(text)) == (FieldsView {
            session_key: Some(text),
            ..fields
        }),
        fields.recorded("cron_job_id"@, JsonView::Text(text)) == (FieldsView {
            cron_job_id: Some(text),
            ..fields
        }),
        fields.recorded("trace_id"@, JsonView::Text(text)) == (FieldsView {
            trace_id: Some(text),
            ..fields
        }),
        fields.recorded("span_id"@, JsonView::Text(text)) == (FieldsView {
            span_id: Some(text),
            ..fields
        }),
        fields.recorded("message"@, JsonView::Text(text)) == (FieldsView {
            message: Some(text),
            ..fields
        }),
{
    lemma_names_differ();
}

/// The names with a place of their own.
pub open spec fn has_a_place(name: Seq<char>) -> bool {
    ||| name == "event"@
    ||| name == "category"@
    ||| name == "outcome"@
    ||| name == "agent"@
    ||| name == "agent_alias"@
    ||| name == "parent_alias"@
    ||| name == "channel"@
    ||| name == "model_provider"@
    ||| name == "model"@
    ||| name == "tool"@
    ||| name == "session_key"@
    ||| name == "cron_job_id"@
    ||| name == "trace_id"@
    ||| name == "span_id"@
    ||| name == "message"@
}

/// A value recorded under any other name is kept under that name, and nothing
/// else changes; what is no text is not taken under a name with a place of its
/// own.
pub proof fn law_other_values_are_kept_by_name(
    fields: FieldsView,
    name: Seq<char>,
    value: JsonView,
)
    ensures
        !has_a_place(name) ==> fields.recorded(name, value) == (FieldsView {
            extra: fields.extra.insert(name, value),
            ..fields
        }),
        has_a_place(name) && !(value is Text) ==> fields.recorded(name, value) == fields,
{
}

/// A category that the fields name by its word is taken.
pub proof fn law_named_category_is_taken(
    severity: Severity,
    target: Seq<char>,
    fields: FieldsView,
    spans: Seq<SpanMarkers>,
    attributes: JsonView,
)
    ensures
        ({
            let e = captured(severity, target, fields, spans, attributes);
            &&& fields.category == Some("agent"@) ==> e.category is Agent
            &&& fields.category == Some("channel"@) ==> e.category is Channel
            &&& fields.category == Some("internal"@) ==> e.category is Internal
            &&& fields.category == Some("memory"@) ==> e.category is Memory
            &&& fields.category == Some("provider"@) ==> e.category is Provider
            &&& fields.category == Some("system"@) ==> e.category is System
            &&& fields.category == Some("tool"@) ==> e.category is Tool
        }),
{
    if let Some(word) = fields.category {
        if word == "agent"@ {
            lemma_category_named(word, EventCategory::Agent);
        }
        if word == "channel"@ {
            lemma_category_named(word, EventCategory::Channel);
        }
        if word == "internal"@ {
            lemma_category_named(word, EventCategory::Internal);
        }
        if word == "memory"@ {
            lemma_category_named(word, EventCategory::Memory);
        }
        if word == "provider"@ {
            lemma_category_named(word, EventCategory::Provider);
        }
        if word == "system"@ {
            lemma_category_named(word, EventCategory::System);
        }
        if word == "tool"@ {
            lemma_category_named(word, EventCategory::Tool);
        }
    }
}

proof fn lemma_category_named(word: Seq<char>, c: EventCategory)
    requires
        word == c.word(),
    ensures
        EventCategory::named(word) == Some(c),
{
    let d = choose|d: EventCategory| word == #[trigger] d.word();
    assert(word == d.word());
    law_category_words_are_distinct(c, d);
}

/// The words for categories.
pub open spec fn is_category_word(word: Seq<char>) -> bool {
    ||| word == "agent"@
    ||| word == "channel"@
    ||| word == "internal"@
    ||| word == "memory"@
    ||| word == "provider"@
    ||| word == "system"@
    ||| word == "tool"@
}

/// The target is that of a crate or of a module inside it.
pub open spec fn comes_from(target: Seq<char>, name: Seq<char>) -> bool {
    target == name || (name.push(':').push(':')).is_prefix_of(target)
}

/// Where the fields name no category by its word, the crate that the call
/// comes from gives it.
pub proof fn law_category_goes_by_crate(
    severity: Severity,
    target: Seq<char>,
    fields: FieldsView,
    spans: Seq<SpanMarkers>,
    attributes: JsonView,
)
    requires
        fields.category is Some ==> !is_category_word(fields.category->0),
    ensures
        ({
            let e = captured(severity, target, fields, spans, attributes);
            &&& e.category is Channel <==> comes_from(target, "zeroclaw_channels"@)
            &&& e.category is Memory <==> comes_from(target, "zeroclaw_memory"@)
            &&& e.category is Provider <==> comes_from(target, "zeroclaw_providers"@)
            &&& e.category is Internal <==> {
                ||| comes_from(target, "zeroclaw_log"@)
                ||| comes_from(target, "matrix_sdk"@)
                ||| comes_from(target, "matrix_sdk_base"@)
                ||| comes_from(target, "matrix_sdk_crypto"@)
            }
            &&& !(e.category is Agent)
            &&& !(e.category is Tool)
        }),
{
    if let Some(word) = fields.category {
        if let Some(c) = EventCategory::named(word) {
            let d = choose|d: EventCategory| word == #[trigger] d.word();
            assert(word == d.word());
        }
    }
    reveal_strlit("zeroclaw_channels");
    reveal_strlit("zeroclaw_memory");
    reveal_strlit("zeroclaw_providers");
    reveal_strlit("zeroclaw_log");
    reveal_strlit("matrix_sdk");
    reveal_strlit("matrix_sdk_base");
    reveal_strlit("matrix_sdk_crypto");
    assert forall|i: int| 0 <= i < "zeroclaw_channels"@.len() implies #[trigger] "zeroclaw_channels"@[i] != ':' by {
    }
    lemma_comes_from(target, "zeroclaw_channels"@);
    assert forall|i: int| 0 <= i < "zeroclaw_memory"@.len() implies #[trigger] "zeroclaw_memory"@[i] != ':' by {
    }
    lemma_comes_from(target, "zeroclaw_memory"@);
    assert forall|i: int| 0 <= i < "zeroclaw_providers"@.len() implies #[trigger] "zeroclaw_providers"@[i] != ':' by {
    }
    lemma_comes_from(target, "zeroclaw_providers"@);
    assert forall|i: int| 0 <= i < "zeroclaw_log"@.len() implies #[trigger] "zeroclaw_log"@[i] != ':' by {
    }
    lemma_comes_from(target, "zeroclaw_log"@);
    assert forall|i: int| 0 <= i < "matrix_sdk"@.len() implies #[trigger] "matrix_sdk"@[i] != ':' by {
    }
    lemma_comes_from(target, "matrix_sdk"@);
    assert forall|i: int| 0 <= i < "matrix_sdk_base"@.len() implies #[trigger] "matrix_sdk_base"@[i] != ':' by {
    }
    lemma_comes_from(target, "matrix_sdk_base"@);
    assert forall|i: int| 0 <= i < "matrix_sdk_crypto"@.len() implies #[trigger] "matrix_sdk_crypto"@[i] != ':' by {
    }
    lemma_comes_from(target, "matrix_sdk_crypto"@);
    assert("zeroclaw_channels"@[0] == 'z' && "matrix_sdk_crypto"@[0] == 'm');
    assert("zeroclaw_memory"@[0] == 'z' && "matrix_sdk_base"@[0] == 'm');
}

proof fn lemma_comes_from(target: Seq<char>, name: Seq<char>)
    requires
        forall|i: int| 0 <= i < name.len() ==> #[trigger] name[i] != ':',
    ensures
        comes_from(target, name) <==> target_head(target) == name,
{
    let mark = name.push(':').push(':');
    let n = name.len() as int;
    lemma_find_first(target, separator());
    if mark.is_prefix_of(target) {
        assert(target[n] == mark[n] && target[n + 1] == mark[n + 1]);
        assert(target.subrange(n, n + 2) =~= separator());
        assert forall|j: int| 0 <= j < n implies !occurs_at(target, separator(), j) by {
            if occurs_at(target, separator(), j) {
                assert(target.subrange(j, j + 2)[0] == ':');
                assert(target[j] == mark[j]);
                assert(mark[j] == name[j]);
            }
        }
        assert(first_at(target, separator(), n));
        lemma_find_is(target, separator(), n);
        assert(target.take(n) =~= name) by {
            assert forall|j: int| 0 <= j < n implies target[j] == name[j] by {
                assert(target[j] == mark[j]);
            }
        }
    } else if target == name {
        if let Some(i) = find(target, separator()) {
            assert(target.subrange(i, i + 2)[0] == ':');
            assert(name[i] == ':');
        }
    } else if target_head(target) == name {
        let i = find(target, separator())->0;
        assert(i == n);
        assert(target.subrange(i, i + 2)[0] == ':' && target.subrange(i, i + 2)[1] == ':');
        assert(mark =~= target.take(n + 2));
    }
}

/// An outcome is taken where the fields name it by its word; otherwise it is
/// unknown.
pub proof fn law_outcome_is_the_one_named(
    severity: Severity,
    target: Seq<char>,
    fields: FieldsView,
    spans: Seq<SpanMarkers>,
    attributes: JsonView,
)
    ensures
        ({
            let e = captured(severity, target, fields, spans, attributes);
            &&& e.outcome is Success <==> fields.outcome == Some("success"@)
            &&& e.outcome is Failure <==> fields.outcome == Some("failure"@)
        }),
{
    reveal_strlit("success");
    reveal_strlit("failure");
    assert("success"@[0] == 's' && "failure"@[0] == 'f');
    if let Some(word) = fields.outcome {
        if let Some(o) = EventOutcome::named(word) {
            let d = choose|d: EventOutcome| word == #[trigger] d.word();
            assert(word == d.word());
        }
        if word == "success"@ {
            assert(word == EventOutcome::Success.word());
            law_outcome_words_are_distinct(EventOutcome::named(word)->0, EventOutcome::Success);
        }
        if word == "failure"@ {
            assert(word == EventOutcome::Failure.word());
            law_outcome_words_are_distinct(EventOutcome::named(word)->0, EventOutcome::Failure);
        }
    }
}

/// An error is told with each of its causes, one after the other, with a
/// colon and a space before each.
pub proof fn law_error_chain_tells_each_cause(
    error: Seq<char>,
    causes: Seq<Seq<char>>,
    cause: Seq<char>,
)
    ensures
        chain_text(error, Seq::empty()) == error,
        chain_text(error, causes.push(cause)) == chain_text(error, causes) + ": "@ + cause,
        chain_text(error, seq![cause] + causes) == chain_text(error + ": "@ + cause, causes),
    decreases causes.len(),
{
    assert(causes.push(cause).drop_last() =~= causes);
    if causes.len() == 0 {
        assert(seq![cause] + causes =~= seq![cause]);
        assert(seq![cause].drop_last() =~= Seq::<Seq<char>>::empty());
        assert(chain_text(error, Seq::<Seq<char>>::empty()) == error);
    } else {
        assert((seq![cause] + causes).drop_last() =~= seq![cause] + causes.drop_last());
        law_error_chain_tells_each_cause(error, causes.drop_last(), cause);
    }
}

/// A quoted message loses its quotation marks and no more; a message without
/// them stays. Left out are messages with white space at their ends, which
/// lose that.
pub proof fn law_message_loses_its_quotes(inner: Seq<char>, plain: Seq<char>)
    requires
        trim(seq!['"'] + inner + seq!['"']) == seq!['"'] + inner + seq!['"'],
        trim(plain) == plain,
        plain.len() < 2 || plain[0] != '"' || plain.last() != '"',
    ensures
        unquoted(seq!['"'] + inner + seq!['"']) == inner,
        unquoted(plain) == plain,
{
    let q = seq!['"'] + inner + seq!['"'];
    assert(q.subrange(1, q.len() - 1) =~= inner);
}

/// Calls of the log pipeline itself are told by how their target begins.
pub proof fn law_pipeline_calls_are_left_out(rest: Seq<char>, target: Seq<char>)
    ensures
        is_internal("zeroclaw_log_internal"@ + rest),
        is_internal(target) ==> target.take("zeroclaw_log_internal"@.len() as int)
            == "zeroclaw_log_internal"@,
{
    assert("zeroclaw_log_internal"@.is_prefix_of("zeroclaw_log_internal"@ + rest));
}

/// A signed number keeps its value.
pub proof fn law_signed_number_keeps_its_value(n: i64)
    ensures
        match signed(n) {
            JsonNumber::PosInt(m) => n == m,
            JsonNumber::NegInt(m) => n == m && n < 0,
            JsonNumber::Float(_) => false,
        },
{
}

/// A log event is seen with all that it holds.
pub proof fn law_event_is_seen_whole(e: LogEvent)
    ensures
        e@.severity == e.severity,
        e@.action == e.event.action@,
        e@.category == e.event.category,
        e@.outcome == e.event.outcome,
        e.message is Some ==> e@.message == Some(e.message->0@),
        e.message is None ==> e@.message is None,
        e@.attributes == e.attributes@,
        e.zeroclaw.tool is Some ==> e@.zeroclaw.tool == Some(e.zeroclaw.tool->0@),
        e.zeroclaw.tool is None ==> e@.zeroclaw.tool is None,
        e.zeroclaw.model is Some ==> e@.zeroclaw.model == Some(e.zeroclaw.model->0@),
        e.zeroclaw.model is None ==> e@.zeroclaw.model is None,
        e@.zeroclaw.duration_ms == e.zeroclaw.duration_ms,
{
}

} // verus!
