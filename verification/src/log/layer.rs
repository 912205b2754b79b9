//! Capture of tracing calls: the fields of a call or a span are collected by
//! name, and a call becomes a log event that takes from the spans around it
//! whatever attribution it does not carry itself.

use vstd::prelude::*;

use super::event::{EventCategory, EventOutcome, LogEvent, Severity};
#[allow(unused_imports)]
use super::event::{AttributionView, LogEventView};
use super::extra::ExtraFields;
#[allow(unused_imports)]
use super::extra::{law_object_reads_back, object_of};
use crate::json::{signed_number, Json, JsonNumber};
#[allow(unused_imports)]
use crate::json::{signed, JsonView};
use crate::text::{
    chars_of, copy_or_empty, find_in, same_text, starts_with, string_between, string_of, trim_of,
};
#[allow(unused_imports)]
use crate::text::{find, lemma_find_first, opt_text, text_or_empty, texts, trim};

verus! {

// ---------------------------------------------------------------------------
// Fields by name
// ---------------------------------------------------------------------------

/// The place that a field name stands for.
#[derive(Clone, Copy, PartialEq, Eq, Structural, Debug)]
pub enum FieldPlace {
    Action,
    Category,
    Outcome,
    Agent,
    AgentAlias,
    Channel,
    ModelProvider,
    Model,
    Tool,
    SessionKey,
    CronJobId,
    TraceId,
    SpanId,
    Message,
    /// No place of its own: the field is kept under its name.
    Extra,
}

/// The place that `name` stands for.
pub open spec fn place(name: Seq<char>) -> FieldPlace {
    if name == "event"@ {
        FieldPlace::Action
    } else if name == "category"@ {
        FieldPlace::Category
    } else if name == "outcome"@ {
        FieldPlace::Outcome
    } else if name == "agent"@ {
        FieldPlace::Agent
    } else if name == "agent_alias"@ || name == "parent_alias"@ {
        FieldPlace::AgentAlias
    } else if name == "channel"@ {
        FieldPlace::Channel
    } else if name == "model_provider"@ {
        FieldPlace::ModelProvider
    } else if name == "model"@ {
        FieldPlace::Model
    } else if name == "tool"@ {
        FieldPlace::Tool
    } else if name == "session_key"@ {
        FieldPlace::SessionKey
    } else if name == "cron_job_id"@ {
        FieldPlace::CronJobId
    } else if name == "trace_id"@ {
        FieldPlace::TraceId
    } else if name == "span_id"@ {
        FieldPlace::SpanId
    } else if name == "message"@ {
        FieldPlace::Message
    } else {
        FieldPlace::Extra
    }
}

fn place_of(name: &str) -> (out: FieldPlace)
    ensures
        out == place(name@),
{
    if same_text(name, "event") {
        FieldPlace::Action
    } else if same_text(name, "category") {
        FieldPlace::Category
    } else if same_text(name, "outcome") {
        FieldPlace::Outcome
    } else if same_text(name, "agent") {
        FieldPlace::Agent
    } else if same_text(name, "agent_alias") || same_text(name, "parent_alias") {
        FieldPlace::AgentAlias
    } else if same_text(name, "channel") {
        FieldPlace::Channel
    } else if same_text(name, "model_provider") {
        FieldPlace::ModelProvider
    } else if same_text(name, "model") {
        FieldPlace::Model
    } else if same_text(name, "tool") {
        FieldPlace::Tool
    } else if same_text(name, "session_key") {
        FieldPlace::SessionKey
    } else if same_text(name, "cron_job_id") {
        FieldPlace::CronJobId
    } else if same_text(name, "trace_id") {
        FieldPlace::TraceId
    } else if same_text(name, "span_id") {
        FieldPlace::SpanId
    } else if same_text(name, "message") {
        FieldPlace::Message
    } else {
        FieldPlace::Extra
    }
}

/// The fields of one tracing call or span.
pub struct FieldCollector {
    pub action: Option<String>,
    pub category: Option<String>,
    pub outcome: Option<String>,
    pub agent: Option<String>,
    pub agent_alias: Option<String>,
    pub channel: Option<String>,
    pub model_provider: Option<String>,
    pub model: Option<String>,
    pub tool: Option<String>,
    pub session_key: Option<String>,
    pub cron_job_id: Option<String>,
    pub duration_ms: Option<u64>,
    pub trace_id: Option<String>,
    pub span_id: Option<String>,
    pub message: Option<String>,
    pub extra: ExtraFields,
}

/// Collected fields with their texts as sequences.
pub struct FieldsView {
    pub action: Option<Seq<char>>,
    pub category: Option<Seq<char>>,
    pub outcome: Option<Seq<char>>,
    pub agent: Option<Seq<char>>,
    pub agent_alias: Option<Seq<char>>,
    pub channel: Option<Seq<char>>,
    pub model_provider: Option<Seq<char>>,
    pub model: Option<Seq<char>>,
    pub tool: Option<Seq<char>>,
    pub session_key: Option<Seq<char>>,
    pub cron_job_id: Option<Seq<char>>,
    pub duration_ms: Option<u64>,
    pub trace_id: Option<Seq<char>>,
    pub span_id: Option<Seq<char>>,
    pub message: Option<Seq<char>>,
    pub extra: Map<Seq<char>, JsonView>,
}

impl View for FieldCollector {
    type V = FieldsView;

    open spec fn view(&self) -> FieldsView {
        FieldsView {
            action: opt_text(self.action),
            category: opt_text(self.category),
            outcome: opt_text(self.outcome),
            agent: opt_text(self.agent),
            agent_alias: opt_text(self.agent_alias),
            channel: opt_text(self.channel),
            model_provider: opt_text(self.model_provider),
            model: opt_text(self.model),
            tool: opt_text(self.tool),
            session_key: opt_text(self.session_key),
            cron_job_id: opt_text(self.cron_job_id),
            duration_ms: self.duration_ms,
            trace_id: opt_text(self.trace_id),
            span_id: opt_text(self.span_id),
            message: opt_text(self.message),
            extra: self.extra@,
        }
    }
}

impl FieldsView {
    /// No field.
    pub open spec fn empty() -> FieldsView {
        FieldsView {
            action: None,
            category: None,
            outcome: None,
            agent: None,
            agent_alias: None,
            channel: None,
            model_provider: None,
            model: None,
            tool: None,
            session_key: None,
            cron_job_id: None,
            duration_ms: None,
            trace_id: None,
            span_id: None,
            message: None,
            extra: Map::empty(),
        }
    }

    /// The fields once `text` has been put in its place.
    pub open spec fn with_text(self, at: FieldPlace, text: Seq<char>) -> FieldsView {
        match at {
            FieldPlace::Action => FieldsView { action: Some(text), ..self },
            FieldPlace::Category => FieldsView { category: Some(text), ..self },
            FieldPlace::Outcome => FieldsView { outcome: Some(text), ..self },
            FieldPlace::Agent => FieldsView { agent: Some(text), ..self },
            FieldPlace::AgentAlias => FieldsView { agent_alias: Some(text), ..self },
            FieldPlace::Channel => FieldsView { channel: Some(text), ..self },
            FieldPlace::ModelProvider => FieldsView { model_provider: Some(text), ..self },
            FieldPlace::Model => FieldsView { model: Some(text), ..self },
            FieldPlace::Tool => FieldsView { tool: Some(text), ..self },
            FieldPlace::SessionKey => FieldsView { session_key: Some(text), ..self },
            FieldPlace::CronJobId => FieldsView { cron_job_id: Some(text), ..self },
            FieldPlace::TraceId => FieldsView { trace_id: Some(text), ..self },
            FieldPlace::SpanId => FieldsView { span_id: Some(text), ..self },
            FieldPlace::Message => FieldsView { message: Some(text), ..self },
            FieldPlace::Extra => self,
        }
    }

    /// The fields once `value` has been recorded under `name`. A name with a
    /// place of its own takes texts only; every other name keeps any value.
    pub open spec fn recorded(self, name: Seq<char>, value: JsonView) -> FieldsView {
        if place(name) == FieldPlace::Extra {
            FieldsView { extra: self.extra.insert(name, value), ..self }
        } else {
            match value {
                JsonView::Text(text) => self.with_text(place(name), text),
                _ => self,
            }
        }
    }
}

/// An error followed by its causes, each after a colon and a space.
pub open spec fn chain_text(error: Seq<char>, causes: Seq<Seq<char>>) -> Seq<char>
    decreases causes.len(),
{
    if causes.len() == 0 {
        error
    } else {
        chain_text(error, causes.drop_last()) + ": "@ + causes.last()
    }
}

/// `s` without white space at its ends, and then without one quotation mark
/// at each end where it has both.
pub open spec fn unquoted(s: Seq<char>) -> Seq<char> {
    let t = trim(s);
    if t.len() >= 2 && t[0] == '"' && t.last() == '"' {
        t.subrange(1, t.len() - 1)
    } else {
        t
    }
}

/// `s` without white space at its ends, and then without one quotation mark
/// at each end where it has both.
pub fn strip_outer_quotes(s: &str) -> (out: String)
    ensures
        out@ == unquoted(s@),
{
    let trimmed = trim_of(s);
    let v = chars_of(trimmed.as_str());
    let n: usize = v.len();
    if n >= 2 && v[0] == '"' && v[n - 1] == '"' {
        return string_between(&v, 1, n - 1);
    }
    trimmed
}

impl FieldCollector {
    /// The kept fields are in order.
    pub open spec fn wf(&self) -> bool {
        self.extra.wf()
    }

    /// No field.
    pub fn new() -> (out: Self)
        ensures
            out.wf(),
            out@ == FieldsView::empty(),
    {
        FieldCollector {
            action: None,
            category: None,
            outcome: None,
            agent: None,
            agent_alias: None,
            channel: None,
            model_provider: None,
            model: None,
            tool: None,
            session_key: None,
            cron_job_id: None,
            duration_ms: None,
            trace_id: None,
            span_id: None,
            message: None,
            extra: ExtraFields::new(),
        }
    }

    /// Takes the message out, the empty text where there is none.
    pub fn message_or_summary(&mut self) -> (out: String)
        requires
            old(self).wf(),
        ensures
            final(self).wf(),
            out@ == text_or_empty(old(self).message),
            final(self)@ == (FieldsView { message: None, ..old(self)@ }),
    {
        match self.message.take() {
            Some(s) => s,
            None => String::new(),
        }
    }

    /// Records a text.
    pub fn record_str(&mut self, name: &str, value: &str)
        requires
            old(self).wf(),
        ensures
            final(self).wf(),
            final(self)@ == old(self)@.recorded(name@, JsonView::Text(value@)),
    {
        self.record_field(name, Json::Text(value.to_owned()));
    }

    /// Records a truth value.
    pub fn record_bool(&mut self, name: &str, value: bool)
        requires
            old(self).wf(),
        ensures
            final(self).wf(),
            final(self)@ == old(self)@.recorded(name@, JsonView::Bool(value)),
    {
        self.record_field(name, Json::Bool(value));
    }

    /// Records a signed whole number.
    pub fn record_i64(&mut self, name: &str, value: i64)
        requires
            old(self).wf(),
        ensures
            final(self).wf(),
            final(self)@ == old(self)@.recorded(name@, JsonView::Number(signed(value))),
    {
        self.record_field(name, Json::Number(signed_number(value)));
    }

    /// Records an unsigned whole number. Under `duration_ms` it is the
    /// duration.
    pub fn record_u64(&mut self, name: &str, value: u64)
        requires
            old(self).wf(),
        ensures
            final(self).wf(),
            final(self)@ == (if name@ == "duration_ms"@ {
                FieldsView { duration_ms: Some(value), ..old(self)@ }
            } else {
                old(self)@.recorded(name@, JsonView::Number(JsonNumber::PosInt(value)))
            }),
    {
        if same_text(name, "duration_ms") {
            self.duration_ms = Some(value);
            return ;
        }
        self.record_field(name, Json::Number(JsonNumber::PosInt(value)));
    }

    /// Records a floating-point number, given as its JSON form. One that has
    /// none, because it is not finite, is recorded as null.
    pub fn record_f64(&mut self, name: &str, value: Option<JsonNumber>)
        requires
            old(self).wf(),
        ensures
            final(self).wf(),
            final(self)@ == old(self)@.recorded(
                name@,
                match value {
                    Some(n) => JsonView::Number(n),
                    None => JsonView::Null,
                },
            ),
    {
        match value {
            Some(n) => self.record_field(name, Json::Number(n)),
            None => self.record_field(name, Json::Null),
        }
    }

    /// Records an error as its text followed by the texts of its causes, the
    /// nearest cause first.
    pub fn record_error(&mut self, name: &str, error: &str, causes: &Vec<String>)
        requires
            old(self).wf(),
        ensures
            final(self).wf(),
            final(self)@ == old(self)@.recorded(
                name@,
                JsonView::Text(chain_text(error@, texts(causes@))),
            ),
    {
        let mut buf = error.to_owned();
        let ghost all = texts(causes@);
        let mut i: usize = 0;
        proof {
            assert(all.take(0) =~= Seq::<Seq<char>>::empty());
        }
        while i < causes.len()
            invariant
                all == texts(causes@),
                i <= causes@.len(),
                buf@ == chain_text(error@, all.take(i as int)),
            decreases causes@.len() - i,
        {
            proof {
                assert(all.take(i + 1).drop_last() =~= all.take(i as int));
                assert(all.take(i + 1).last() == causes@[i as int]@);
            }
            buf.append(": ");
            buf.append(causes[i].as_str());
            i = i + 1;
        }
        proof {
            assert(all.take(all.len() as int) =~= all);
        }
        self.record_field(name, Json::Text(buf));
    }

    /// Records a value by its debug text. The message loses its quotation
    /// marks.
    pub fn record_debug(&mut self, name: &str, value: &str)
        requires
            old(self).wf(),
        ensures
            final(self).wf(),
            final(self)@ == (if name@ == "message"@ {
                FieldsView { message: Some(unquoted(value@)), ..old(self)@ }
            } else {
                old(self)@.recorded(name@, JsonView::Text(value@))
            }),
    {
        if same_text(name, "message") {
            self.message = Some(strip_outer_quotes(value));
            return ;
        }
        self.record_field(name, Json::Text(value.to_owned()));
    }

    /// Records `value` under `name`.
    pub fn record_field(&mut self, name: &str, value: Json)
        requires
            old(self).wf(),
        ensures
            final(self).wf(),
            final(self)@ == old(self)@.recorded(name@, value@),
    {
        let at = place_of(name);
        match at {
            FieldPlace::Extra => {
                self.extra.insert(name, value);
            },
            _ => {
                if let Json::Text(text) = value {
                    self.put_text(at, text);
                }
            },
        }
    }

    fn put_text(&mut self, at: FieldPlace, text: String)
        requires
            old(self).wf(),
        ensures
            final(self).wf(),
            final(self)@ == old(self)@.with_text(at, text@),
    {
        match at {
            FieldPlace::Action => self.action = Some(text),
            FieldPlace::Category => self.category = Some(text),
            FieldPlace::Outcome => self.outcome = Some(text),
            FieldPlace::Agent => self.agent = Some(text),
            FieldPlace::AgentAlias => self.agent_alias = Some(text),
            FieldPlace::Channel => self.channel = Some(text),
            FieldPlace::ModelProvider => self.model_provider = Some(text),
            FieldPlace::Model => self.model = Some(text),
            FieldPlace::Tool => self.tool = Some(text),
            FieldPlace::SessionKey => self.session_key = Some(text),
            FieldPlace::CronJobId => self.cron_job_id = Some(text),
            FieldPlace::TraceId => self.trace_id = Some(text),
            FieldPlace::SpanId => self.span_id = Some(text),
            FieldPlace::Message => self.message = Some(text),
            FieldPlace::Extra => {},
        }
    }
}

// ---------------------------------------------------------------------------
// Targets
// ---------------------------------------------------------------------------

/// What stands between two segments of a target.
pub open spec fn separator() -> Seq<char> {
    seq![':', ':']
}

/// The first segment of a target.
pub open spec fn target_head(target: Seq<char>) -> Seq<char> {
    match find(target, separator()) {
        Some(i) => target.take(i),
        None => target,
    }
}

/// The last segment of a target.
pub open spec fn target_tail(target: Seq<char>) -> Seq<char>
    decreases target.len(),
    via target_tail_decreases
{
    match find(target, separator()) {
        Some(i) => target_tail(target.skip(i + 2)),
        None => target,
    }
}

#[via_fn]
proof fn target_tail_decreases(target: Seq<char>) {
    lemma_find_first(target, separator());
}

/// Events of the log pipeline itself, which are not captured again.
pub open spec fn is_internal(target: Seq<char>) -> bool {
    "zeroclaw_log_internal"@.is_prefix_of(target)
}

/// The category of an event that names none, by the first segment of its
/// target.
pub open spec fn inferred_category(target: Seq<char>) -> EventCategory {
    let head = target_head(target);
    if head == "zeroclaw_channels"@ {
        EventCategory::Channel
    } else if head == "zeroclaw_memory"@ {
        EventCategory::Memory
    } else if head == "zeroclaw_providers"@ {
        EventCategory::Provider
    } else if head == "zeroclaw_log"@ || head == "matrix_sdk"@ || head == "matrix_sdk_base"@ || head
        == "matrix_sdk_crypto"@ {
        EventCategory::Internal
    } else {
        EventCategory::System
    }
}

fn separator_chars() -> (out: Vec<char>)
    ensures
        out@ == separator(),
{
    let mut out: Vec<char> = Vec::new();
    out.push(':');
    out.push(':');
    proof {
        assert(out@ =~= separator());
    }
    out
}

/// The category of an event that names none, by the first segment of its
/// target.
pub fn infer_category(target: &str) -> (out: EventCategory)
    ensures
        out == inferred_category(target@),
{
    let v = chars_of(target);
    let mark = separator_chars();
    let head: String = match find_in(&v, &mark) {
        Some(i) => {
            let head = string_between(&v, 0, i);
            proof {
                assert(v@.subrange(0, i as int) =~= v@.take(i as int));
            }
            head
        },
        None => target.to_owned(),
    };
    let h: &str = head.as_str();
    if same_text(h, "zeroclaw_channels") {
        EventCategory::Channel
    } else if same_text(h, "zeroclaw_memory") {
        EventCategory::Memory
    } else if same_text(h, "zeroclaw_providers") {
        EventCategory::Provider
    } else if same_text(h, "zeroclaw_log") || same_text(h, "matrix_sdk") || same_text(
        h,
        "matrix_sdk_base",
    ) || same_text(h, "matrix_sdk_crypto") {
        EventCategory::Internal
    } else {
        EventCategory::System
    }
}

/// The last segment of a target.
pub fn last_segment(target: &str) -> (out: String)
    ensures
        out@ == target_tail(target@),
{
    let mark = separator_chars();
    let mut rest = chars_of(target);
    loop
        invariant
            mark@ == separator(),
            target_tail(target@) == target_tail(rest@),
        decreases rest@.len(),
    {
        match find_in(&rest, &mark) {
            Some(i) => {
                let end: usize = rest.len();
                let tail = string_between(&rest, i + 2, end);
                proof {
                    assert(rest@.subrange(i + 2, end as int) =~= rest@.skip(i + 2));
                }
                rest = chars_of(tail.as_str());
            },
            None => {
                return string_of(&rest);
            },
        }
    }
}

// ---------------------------------------------------------------------------
// Spans
// ---------------------------------------------------------------------------

/// Says that a span belongs to an agent.
#[derive(Clone, Debug)]
pub struct AgentAliasField {
    pub alias: String,
}

/// Says that a span belongs to a channel, given as `<type>.<alias>`.
#[derive(Clone, Debug)]
pub struct ChannelContextField {
    pub composite: String,
}

/// Says that a span belongs to a session.
#[derive(Clone, Debug)]
pub struct SessionKeyField {
    pub key: String,
}

/// Says that a span belongs to a run of a scheduled job.
#[derive(Clone, Debug)]
pub struct CronJobIdField {
    pub id: String,
}

/// What a span says of the events inside it.
#[derive(Clone, Debug)]
pub struct SpanMarkers {
    pub agent_alias: Option<AgentAliasField>,
    pub channel: Option<ChannelContextField>,
    pub session_key: Option<SessionKeyField>,
    pub cron_job_id: Option<CronJobIdField>,
}

/// One of the things that a span can say.
#[derive(Clone, Copy, PartialEq, Eq, Structural, Debug)]
pub enum Marker {
    AgentAlias,
    Channel,
    SessionKey,
    CronJobId,
}

impl SpanMarkers {
    /// What the span says in one respect.
    pub open spec fn says(self, marker: Marker) -> Option<Seq<char>> {
        match marker {
            Marker::AgentAlias => match self.agent_alias {
                Some(m) => Some(m.alias@),
                None => None,
            },
            Marker::Channel => match self.channel {
                Some(m) => Some(m.composite@),
                None => None,
            },
            Marker::SessionKey => match self.session_key {
                Some(m) => Some(m.key@),
                None => None,
            },
            Marker::CronJobId => match self.cron_job_id {
                Some(m) => Some(m.id@),
                None => None,
            },
        }
    }

    /// What the span says in one respect.
    pub fn get(&self, marker: Marker) -> (out: Option<String>)
        ensures
            opt_text(out) == self.says(marker),
    {
        match marker {
            Marker::AgentAlias => match &self.agent_alias {
                Some(m) => Some(m.alias.clone()),
                None => None,
            },
            Marker::Channel => match &self.channel {
                Some(m) => Some(m.composite.clone()),
                None => None,
            },
            Marker::SessionKey => match &self.session_key {
                Some(m) => Some(m.key.clone()),
                None => None,
            },
            Marker::CronJobId => match &self.cron_job_id {
                Some(m) => Some(m.id.clone()),
                None => None,
            },
        }
    }
}

/// What the nearest span that says anything in one respect says. The spans
/// are listed from the innermost outwards.
pub open spec fn nearest(spans: Seq<SpanMarkers>, marker: Marker) -> Option<Seq<char>>
    decreases spans.len(),
{
    if spans.len() == 0 {
        None
    } else if spans[0].says(marker) is Some {
        spans[0].says(marker)
    } else {
        nearest(spans.drop_first(), marker)
    }
}

fn nearest_of(spans: &Vec<SpanMarkers>, marker: Marker) -> (out: Option<String>)
    ensures
        opt_text(out) == nearest(spans@, marker),
{
    let mut i: usize = 0;
    proof {
        assert(spans@.skip(0) =~= spans@);
    }
    while i < spans.len()
        invariant
            i <= spans@.len(),
            nearest(spans@, marker) == nearest(spans@.skip(i as int), marker),
        decreases spans@.len() - i,
    {
        proof {
            assert(spans@.skip(i as int).drop_first() =~= spans@.skip(i + 1));
        }
        let said = spans[i].get(marker);
        if said.is_some() {
            return said;
        }
        i = i + 1;
    }
    None
}

// ---------------------------------------------------------------------------
// Capture
// ---------------------------------------------------------------------------

/// What is known of a tracing call before its fields are read.
#[derive(Debug)]
pub struct EventMetadata {
    pub severity: Severity,
    pub target: String,
}

/// The first of two optional texts that is there.
pub open spec fn either(a: Option<Seq<char>>, b: Option<Seq<char>>) -> Option<Seq<char>> {
    if a is Some {
        a
    } else {
        b
    }
}

/// What an event says itself of whom it is attributed to.
pub open spec fn own_attribution(fields: FieldsView) -> AttributionView {
    let base = AttributionView {
        agent_alias: either(fields.agent_alias, fields.agent),
        model: fields.model,
        tool: fields.tool,
        session_key: fields.session_key,
        cron_job_id: fields.cron_job_id,
        duration_ms: fields.duration_ms,
        ..AttributionView::empty()
    };
    let with_channel = match fields.channel {
        Some(c) => base.with_channel(c),
        None => base,
    };
    match fields.model_provider {
        Some(p) => with_channel.with_model_provider(p),
        None => with_channel,
    }
}

/// The attribution with what it leaves open taken from the nearest span that
/// says it.
pub open spec fn inherited(own: AttributionView, spans: Seq<SpanMarkers>) -> AttributionView {
    let filled = AttributionView {
        agent_alias: either(own.agent_alias, nearest(spans, Marker::AgentAlias)),
        session_key: either(own.session_key, nearest(spans, Marker::SessionKey)),
        cron_job_id: either(own.cron_job_id, nearest(spans, Marker::CronJobId)),
        ..own
    };
    if own.channel is Some {
        filled
    } else {
        match nearest(spans, Marker::Channel) {
            Some(c) => filled.with_channel(c),
            None => filled,
        }
    }
}

/// The event for a tracing call, but for its attributes.
pub open spec fn captured(
    severity: Severity,
    target: Seq<char>,
    fields: FieldsView,
    spans: Seq<SpanMarkers>,
    attributes: JsonView,
) -> LogEventView {
    LogEventView {
        severity,
        action: match fields.action {
            Some(a) => a,
            None => target_tail(target),
        },
        category: match fields.category {
            Some(word) => match EventCategory::named(word) {
                Some(c) => c,
                None => inferred_category(target),
            },
            None => inferred_category(target),
        },
        outcome: match fields.outcome {
            Some(word) => match EventOutcome::named(word) {
                Some(o) => o,
                None => EventOutcome::Unknown,
            },
            None => EventOutcome::Unknown,
        },
        message: Some(
            match fields.message {
                Some(m) => m,
                None => Seq::empty(),
            },
        ),
        zeroclaw: inherited(own_attribution(fields), spans),
        trace_id: fields.trace_id,
        span_id: fields.span_id,
        attributes,
    }
}

/// The attributes of an event are its extra fields as an object, null where
/// there are none.
pub open spec fn attributes_hold(attributes: JsonView, extra: Map<Seq<char>, JsonView>) -> bool {
    if extra == Map::<Seq<char>, JsonView>::empty() {
        attributes == JsonView::Null
    } else {
        object_of(attributes, extra)
    }
}

/// Turns tracing calls into log events and span fields into markers.
#[derive(Clone, Copy, Debug)]
pub struct LogCaptureLayer;

impl LogCaptureLayer {
    /// What a new span with these fields says of the events inside it.
    pub fn on_new_span(&self, fields: FieldCollector) -> (out: SpanMarkers)
        ensures
            out.says(Marker::AgentAlias) == either(fields@.agent_alias, fields@.agent),
            out.agent_alias is Some <==> fields.agent_alias is Some || fields.agent is Some,
            fields.agent_alias is Some ==> out.agent_alias->0.alias@ == fields.agent_alias->0@,
            fields.agent_alias is None && fields.agent is Some ==> out.agent_alias->0.alias@
                == fields.agent->0@,
            out.channel is Some <==> fields.channel is Some,
            out.channel is Some ==> out.channel->0.composite@ == fields.channel->0@,
            out.session_key is Some <==> fields.session_key is Some,
            out.session_key is Some ==> out.session_key->0.key@ == fields.session_key->0@,
            out.cron_job_id is Some <==> fields.cron_job_id is Some,
            out.cron_job_id is Some ==> out.cron_job_id->0.id@ == fields.cron_job_id->0@,
            out.says(Marker::Channel) == fields@.channel,
            out.says(Marker::SessionKey) == fields@.session_key,
            out.says(Marker::CronJobId) == fields@.cron_job_id,
    {
        let alias: Option<String> = if fields.agent_alias.is_some() {
            fields.agent_alias
        } else {
            fields.agent
        };
        SpanMarkers {
            agent_alias: match alias {
                Some(alias) => Some(AgentAliasField { alias }),
                None => None,
            },
            channel: match fields.channel {
                Some(composite) => Some(ChannelContextField { composite }),
                None => None,
            },
            session_key: match fields.session_key {
                Some(key) => Some(SessionKeyField { key }),
                None => None,
            },
            cron_job_id: match fields.cron_job_id {
                Some(id) => Some(CronJobIdField { id }),
                None => None,
            },
        }
    }

    /// The log event for a tracing call inside `spans`, which are listed from
    /// the innermost outwards. A call of the log pipeline itself gives none.
    #[verifier::rlimit(60)]
    #[verifier::spinoff_prover]
    pub fn on_event(
        &self,
        metadata: &EventMetadata,
        fields: FieldCollector,
        spans: &Vec<SpanMarkers>,
    ) -> (out: Option<LogEvent>)
        requires
            fields.wf(),
        ensures
            match out {
                None => is_internal(metadata.target@) && "zeroclaw_log_internal"@.is_prefix_of(
                    metadata.target@,
                ),
                Some(e) => {
                    &&& !is_internal(metadata.target@)
                    &&& !"zeroclaw_log_internal"@.is_prefix_of(metadata.target@)
                    &&& e.severity == metadata.severity
                    &&& e@ == captured(
                        metadata.severity,
                        metadata.target@,
                        fields@,
                        spans@,
                        e@.attributes,
                    )
                    &&& attributes_hold(e@.attributes, fields@.extra)
                },
            },
    {
        let target: &str = metadata.target.as_str();
        if starts_with(target, "zeroclaw_log_internal") {
            return None;
        }
        let category: EventCategory = match &fields.category {
            Some(word) => match EventCategory::parse(word.as_str()) {
                Some(c) => c,
                None => infer_category(target),
            },
            None => infer_category(target),
        };
        let action: String = match &fields.action {
            Some(a) => a.clone(),
            None => last_segment(target),
        };
        let mut event = LogEvent::new(metadata.severity, action.as_str(), category);
        if let Some(word) = &fields.outcome {
            if let Some(outcome) = EventOutcome::parse(word.as_str()) {
                event.set_outcome(outcome);
            }
        }
        event.message = Some(copy_or_empty(&fields.message));
        event.zeroclaw.agent_alias = if fields.agent_alias.is_some() {
            fields.agent_alias
        } else {
            fields.agent
        };
        if let Some(channel) = &fields.channel {
            event.zeroclaw.set_channel_composite(channel.as_str());
        }
        if let Some(provider) = &fields.model_provider {
            event.zeroclaw.set_model_provider_composite(provider.as_str());
        }
        event.zeroclaw.model = fields.model;
        event.zeroclaw.tool = fields.tool;
        event.zeroclaw.session_key = fields.session_key;
        event.zeroclaw.cron_job_id = fields.cron_job_id;
        event.zeroclaw.duration_ms = fields.duration_ms;
        event.trace_id = fields.trace_id;
        event.span_id = fields.span_id;
        if !fields.extra.is_empty() {
            event.attributes = fields.extra.into_object();
        }
        if event.zeroclaw.agent_alias.is_none() {
            event.zeroclaw.agent_alias = nearest_of(spans, Marker::AgentAlias);
        }
        if event.zeroclaw.channel.is_none() {
            if let Some(composite) = nearest_of(spans, Marker::Channel) {
                event.zeroclaw.set_channel_composite(composite.as_str());
            }
        }
        if event.zeroclaw.session_key.is_none() {
            event.zeroclaw.session_key = nearest_of(spans, Marker::SessionKey);
        }
        if event.zeroclaw.cron_job_id.is_none() {
            event.zeroclaw.cron_job_id = nearest_of(spans, Marker::CronJobId);
        }
        Some(event)
    }
}

// ---------------------------------------------------------------------------
// Laws
// ---------------------------------------------------------------------------

/// What an event says itself is never overridden by the spans around it, and
/// what spans do not speak of stays as the event has it.
pub proof fn law_event_speaks_before_spans(own: AttributionView, spans: Seq<SpanMarkers>)
    ensures
        ({
            let out = inherited(own, spans);
            &&& own.agent_alias is Some ==> out.agent_alias == own.agent_alias
            &&& own.session_key is Some ==> out.session_key == own.session_key
            &&& own.cron_job_id is Some ==> out.cron_job_id == own.cron_job_id
            &&& own.channel is Some ==> out.channel == own.channel && out.channel_type
                == own.channel_type
            &&& out.model_provider == own.model_provider
            &&& out.model_provider_type == own.model_provider_type
            &&& out.model == own.model
            &&& out.tool == own.tool
            &&& out.duration_ms == own.duration_ms
        }),
{
}

/// An inner span speaks before the spans around it.
pub proof fn law_inner_span_speaks_first(
    inner: SpanMarkers,
    outer: Seq<SpanMarkers>,
    marker: Marker,
)
    ensures
        nearest(seq![inner] + outer, marker) == either(
            inner.says(marker),
            nearest(outer, marker),
        ),
{
    assert((seq![inner] + outer).drop_first() =~= outer);
}

/// Of two values under one name the later one stays. Left out is a value that
/// is no text under a name with a place of its own: it is not taken at all.
pub proof fn law_later_value_replaces(
    fields: FieldsView,
    name: Seq<char>,
    first: JsonView,
    second: JsonView,
)
    requires
        second is Text || place(name) == FieldPlace::Extra,
    ensures
        fields.recorded(name, first).recorded(name, second) == fields.recorded(name, second),
{
    let once = fields.recorded(name, second);
    let twice = fields.recorded(name, first).recorded(name, second);
    assert(twice.extra =~= once.extra);
}

/// Under different names it does not matter which value comes first. Left out
/// are two texts under names that share a place.
pub proof fn law_records_commute(
    fields: FieldsView,
    a: Seq<char>,
    b: Seq<char>,
    x: JsonView,
    y: JsonView,
)
    requires
        a != b,
        place(a) != place(b) || place(a) == FieldPlace::Extra || x !is Text || y !is Text,
    ensures
        fields.recorded(a, x).recorded(b, y) == fields.recorded(b, y).recorded(a, x),
{
    let ab = fields.recorded(a, x).recorded(b, y);
    let ba = fields.recorded(b, y).recorded(a, x);
    assert(ab.extra =~= ba.extra);
}

/// What was recorded under a name without a place of its own stands among the
/// attributes of the event under that name.
pub proof fn law_extra_field_reads_back(
    attributes: JsonView,
    fields: FieldsView,
    name: Seq<char>,
    value: JsonView,
)
    requires
        place(name) == FieldPlace::Extra,
        attributes_hold(attributes, fields.recorded(name, value).extra),
    ensures
        attributes.member(name) == Some(value),
{
    let extra = fields.recorded(name, value).extra;
    assert(extra.contains_key(name));
    assert(extra != Map::<Seq<char>, JsonView>::empty());
    law_object_reads_back(attributes, extra, name);
}

/// A text that was recorded under a name with a place of its own stands in
/// that place of the event.
pub proof fn law_named_field_reaches_event(
    severity: Severity,
    target: Seq<char>,
    fields: FieldsView,
    spans: Seq<SpanMarkers>,
    attributes: JsonView,
    name: Seq<char>,
    text: Seq<char>,
)
    ensures
        ({
            let after = fields.recorded(name, JsonView::Text(text));
            let e = captured(severity, target, after, spans, attributes);
            match place(name) {
                FieldPlace::Action => e.action == text,
                FieldPlace::Category => EventCategory::named(text) is Some ==> Some(e.category)
                    == EventCategory::named(text),
                FieldPlace::Outcome => EventOutcome::named(text) is Some ==> Some(e.outcome)
                    == EventOutcome::named(text),
                FieldPlace::Agent => fields.agent_alias is None ==> e.zeroclaw.agent_alias == Some(
                    text,
                ),
                FieldPlace::AgentAlias => e.zeroclaw.agent_alias == Some(text),
                FieldPlace::Channel => e.zeroclaw.channel == Some(text),
                FieldPlace::ModelProvider => e.zeroclaw.model_provider == Some(text),
                FieldPlace::Model => e.zeroclaw.model == Some(text),
                FieldPlace::Tool => e.zeroclaw.tool == Some(text),
                FieldPlace::SessionKey => e.zeroclaw.session_key == Some(text),
                FieldPlace::CronJobId => e.zeroclaw.cron_job_id == Some(text),
                FieldPlace::TraceId => e.trace_id == Some(text),
                FieldPlace::SpanId => e.span_id == Some(text),
                FieldPlace::Message => e.message == Some(text),
                FieldPlace::Extra => after.extra.contains_key(name) && after.extra[name]
                    == JsonView::Text(text),
            }
        }),
{
}

/// The attributes of an event are its extra fields and nothing else: null where
/// there are none, otherwise an object that holds each under its name.
pub proof fn law_attributes_are_the_extra_fields(
    attributes: JsonView,
    extra: Map<Seq<char>, JsonView>,
    name: Seq<char>,
)
    requires
        attributes_hold(attributes, extra),
    ensures
        extra.contains_key(name) ==> attributes is Object && attributes.member(name) == Some(
            extra[name],
        ),
        !extra.contains_key(name) ==> attributes.member(name) is None,
        extra == Map::<Seq<char>, JsonView>::empty() <==> attributes is Null,
{
    if extra != Map::<Seq<char>, JsonView>::empty() {
        law_object_reads_back(attributes, extra, name);
    }
}

} // verus!
