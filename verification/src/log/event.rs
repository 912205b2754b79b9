//! The structured log event.

use vstd::prelude::*;

use crate::json::Json;
#[allow(unused_imports)]
use crate::json::JsonView;
use crate::text::{same_text, split_once_of};
#[allow(unused_imports)]
use crate::text::{opt_text, split_once};

verus! {

/// How severe an event is.
#[derive(Clone, Copy, PartialEq, Eq, Structural, Debug)]
pub enum Severity {
    Error,
    Warn,
    Info,
    Debug,
    Trace,
}

/// Which part of the system an event is about.
#[derive(Clone, Copy, PartialEq, Eq, Structural, Debug)]
pub enum EventCategory {
    Agent,
    Channel,
    Internal,
    Memory,
    Provider,
    System,
    Tool,
}

impl EventCategory {
    /// The word for the category on the wire.
    pub open spec fn word(self) -> Seq<char> {
        match self {
            EventCategory::Agent => "agent"@,
            EventCategory::Channel => "channel"@,
            EventCategory::Internal => "internal"@,
            EventCategory::Memory => "memory"@,
            EventCategory::Provider => "provider"@,
            EventCategory::System => "system"@,
            EventCategory::Tool => "tool"@,
        }
    }

    /// The category that a word names.
    pub open spec fn named(word: Seq<char>) -> Option<EventCategory> {
        if exists|c: EventCategory| word == #[trigger] c.word() {
            Some(choose|c: EventCategory| word == #[trigger] c.word())
        } else {
            None
        }
    }

    /// The category that a word names.
    pub fn parse(word: &str) -> (out: Option<EventCategory>)
        ensures
            out == EventCategory::named(word@),
            match out {
                Some(c) => word@ == c.word(),
                None => forall|c: EventCategory| word@ != #[trigger] c.word(),
            },
    {
        let out = EventCategory::parse_word(word);
        proof {
            if let Some(c) = out {
                law_category_words_are_distinct(c, EventCategory::named(word@)->0);
            }
        }
        out
    }

    fn parse_word(word: &str) -> (out: Option<EventCategory>)
        ensures
            match out {
                Some(c) => word@ == c.word(),
                None => forall|c: EventCategory| word@ != #[trigger] c.word(),
            },
    {
        if same_text(word, "agent") {
            Some(EventCategory::Agent)
        } else if same_text(word, "channel") {
            Some(EventCategory::Channel)
        } else if same_text(word, "internal") {
            Some(EventCategory::Internal)
        } else if same_text(word, "memory") {
            Some(EventCategory::Memory)
        } else if same_text(word, "provider") {
            Some(EventCategory::Provider)
        } else if same_text(word, "system") {
            Some(EventCategory::System)
        } else if same_text(word, "tool") {
            Some(EventCategory::Tool)
        } else {
            None
        }
    }
}

/// No two categories share a word, so `parse` gives back the category whose
/// word it is handed.
pub proof fn law_category_words_are_distinct(a: EventCategory, b: EventCategory)
    requires
        a.word() == b.word(),
    ensures
        a == b,
{
    reveal_strlit("agent");
    reveal_strlit("channel");
    reveal_strlit("internal");
    reveal_strlit("memory");
    reveal_strlit("provider");
    reveal_strlit("system");
    reveal_strlit("tool");
    assert("agent"@[0] == 'a' && "channel"@[0] == 'c' && "internal"@[0] == 'i');
    assert("memory"@[0] == 'm' && "provider"@[0] == 'p' && "system"@[0] == 's');
    assert("tool"@[0] == 't');
}

/// How the action that an event tells of ended.
#[derive(Clone, Copy, PartialEq, Eq, Structural, Debug)]
pub enum EventOutcome {
    Success,
    Failure,
    Unknown,
}

impl EventOutcome {
    /// The word for the outcome on the wire.
    pub open spec fn word(self) -> Seq<char> {
        match self {
            EventOutcome::Success => "success"@,
            EventOutcome::Failure => "failure"@,
            EventOutcome::Unknown => "unknown"@,
        }
    }

    /// The outcome that a word names.
    pub open spec fn named(word: Seq<char>) -> Option<EventOutcome> {
        if exists|o: EventOutcome| word == #[trigger] o.word() {
            Some(choose|o: EventOutcome| word == #[trigger] o.word())
        } else {
            None
        }
    }

    /// The outcome that a word names.
    pub fn parse(word: &str) -> (out: Option<EventOutcome>)
        ensures
            out == EventOutcome::named(word@),
            match out {
                Some(o) => word@ == o.word(),
                None => forall|o: EventOutcome| word@ != #[trigger] o.word(),
            },
    {
        let out = EventOutcome::parse_word(word);
        proof {
            if let Some(o) = out {
                law_outcome_words_are_distinct(o, EventOutcome::named(word@)->0);
            }
        }
        out
    }

    fn parse_word(word: &str) -> (out: Option<EventOutcome>)
        ensures
            match out {
                Some(o) => word@ == o.word(),
                None => forall|o: EventOutcome| word@ != #[trigger] o.word(),
            },
    {
        if same_text(word, "success") {
            Some(EventOutcome::Success)
        } else if same_text(word, "failure") {
            Some(EventOutcome::Failure)
        } else if same_text(word, "unknown") {
            Some(EventOutcome::Unknown)
        } else {
            None
        }
    }
}

/// No two outcomes share a word, so `parse` gives back the outcome whose word
/// it is handed.
pub proof fn law_outcome_words_are_distinct(a: EventOutcome, b: EventOutcome)
    requires
        a.word() == b.word(),
    ensures
        a == b,
{
    reveal_strlit("success");
    reveal_strlit("failure");
    reveal_strlit("unknown");
    assert("success"@[0] == 's' && "failure"@[0] == 'f' && "unknown"@[0] == 'u');
}

/// What happened, in which part of the system, and how it ended.
#[derive(Debug)]
pub struct EventInfo {
    pub action: String,
    pub category: EventCategory,
    pub outcome: EventOutcome,
}

/// Whom and what an event is attributed to.
#[derive(Debug)]
pub struct Attribution {
    pub agent_alias: Option<String>,
    /// The channel as `<type>.<alias>`.
    pub channel: Option<String>,
    pub channel_type: Option<String>,
    /// The model provider as `<type>.<alias>`.
    pub model_provider: Option<String>,
    pub model_provider_type: Option<String>,
    pub model: Option<String>,
    pub tool: Option<String>,
    pub session_key: Option<String>,
    pub cron_job_id: Option<String>,
    pub duration_ms: Option<u64>,
}

/// An attribution with its texts as sequences.
pub struct AttributionView {
    pub agent_alias: Option<Seq<char>>,
    pub channel: Option<Seq<char>>,
    pub channel_type: Option<Seq<char>>,
    pub model_provider: Option<Seq<char>>,
    pub model_provider_type: Option<Seq<char>>,
    pub model: Option<Seq<char>>,
    pub tool: Option<Seq<char>>,
    pub session_key: Option<Seq<char>>,
    pub cron_job_id: Option<Seq<char>>,
    pub duration_ms: Option<u64>,
}

impl View for Attribution {
    type V = AttributionView;

    open spec fn view(&self) -> AttributionView {
        AttributionView {
            agent_alias: opt_text(self.agent_alias),
            channel: opt_text(self.channel),
            channel_type: opt_text(self.channel_type),
            model_provider: opt_text(self.model_provider),
            model_provider_type: opt_text(self.model_provider_type),
            model: opt_text(self.model),
            tool: opt_text(self.tool),
            session_key: opt_text(self.session_key),
            cron_job_id: opt_text(self.cron_job_id),
            duration_ms: self.duration_ms,
        }
    }
}

/// The type part of `<type>.<alias>`; a text without a dot has none.
pub open spec fn composite_type(composite: Seq<char>) -> Option<Seq<char>> {
    match split_once(composite, '.') {
        Some(p) => Some(p.0),
        None => None,
    }
}

fn composite_type_of(composite: &str) -> (out: Option<String>)
    ensures
        opt_text(out) == composite_type(composite@),
{
    match split_once_of(composite, '.') {
        Some(p) => Some(p.0),
        None => None,
    }
}

impl AttributionView {
    /// Nothing is attributed.
    pub open spec fn empty() -> AttributionView {
        AttributionView {
            agent_alias: None,
            channel: None,
            channel_type: None,
            model_provider: None,
            model_provider_type: None,
            model: None,
            tool: None,
            session_key: None,
            cron_job_id: None,
            duration_ms: None,
        }
    }

    /// The attribution with the channel set from `<type>.<alias>`.
    pub open spec fn with_channel(self, composite: Seq<char>) -> AttributionView {
        AttributionView {
            channel: Some(composite),
            channel_type: composite_type(composite),
            ..self
        }
    }

    /// The attribution with the model provider set from `<type>.<alias>`.
    pub open spec fn with_model_provider(self, composite: Seq<char>) -> AttributionView {
        AttributionView {
            model_provider: Some(composite),
            model_provider_type: composite_type(composite),
            ..self
        }
    }
}

impl Attribution {
    /// Nothing is attributed.
    pub fn empty() -> (out: Attribution)
        ensures
            out@ == AttributionView::empty(),
    {
        Attribution {
            agent_alias: None,
            channel: None,
            channel_type: None,
            model_provider: None,
            model_provider_type: None,
            model: None,
            tool: None,
            session_key: None,
            cron_job_id: None,
            duration_ms: None,
        }
    }

    /// Sets the channel from `<type>.<alias>`.
    pub fn set_channel_composite(&mut self, composite: &str)
        ensures
            final(self)@ == old(self)@.with_channel(composite@),
    {
        self.channel_type = composite_type_of(composite);
        self.channel = Some(composite.to_owned());
    }

    /// Sets the model provider from `<type>.<alias>`.
    pub fn set_model_provider_composite(&mut self, composite: &str)
        ensures
            final(self)@ == old(self)@.with_model_provider(composite@),
    {
        self.model_provider_type = composite_type_of(composite);
        self.model_provider = Some(composite.to_owned());
    }
}

/// One log event.
#[derive(Debug)]
pub struct LogEvent {
    pub severity: Severity,
    pub event: EventInfo,
    pub message: Option<String>,
    pub zeroclaw: Attribution,
    pub trace_id: Option<String>,
    pub span_id: Option<String>,
    pub attributes: Json,
}

/// A log event with its texts as sequences.
pub struct LogEventView {
    pub severity: Severity,
    pub action: Seq<char>,
    pub category: EventCategory,
    pub outcome: EventOutcome,
    pub message: Option<Seq<char>>,
    pub zeroclaw: AttributionView,
    pub trace_id: Option<Seq<char>>,
    pub span_id: Option<Seq<char>>,
    pub attributes: JsonView,
}

impl View for LogEvent {
    type V = LogEventView;

    open spec fn view(&self) -> LogEventView {
        LogEventView {
            severity: self.severity,
            action: self.event.action@,
            category: self.event.category,
            outcome: self.event.outcome,
            message: opt_text(self.message),
            zeroclaw: self.zeroclaw@,
            trace_id: opt_text(self.trace_id),
            span_id: opt_text(self.span_id),
            attributes: self.attributes@,
        }
    }
}

impl LogEvent {
    /// An event that says no more than its severity, action and category.
    pub fn new(severity: Severity, action: &str, category: EventCategory) -> (out: LogEvent)
        ensures
            out@ == (LogEventView {
                severity,
                action: action@,
                category,
                outcome: EventOutcome::Unknown,
                message: None,
                zeroclaw: AttributionView::empty(),
                trace_id: None,
                span_id: None,
                attributes: JsonView::Null,
            }),
    {
        LogEvent {
            severity,
            event: EventInfo { action: action.to_owned(), category, outcome: EventOutcome::Unknown },
            message: None,
            zeroclaw: Attribution::empty(),
            trace_id: None,
            span_id: None,
            attributes: Json::Null,
        }
    }

    /// Says how the action ended.
    pub fn set_outcome(&mut self, outcome: EventOutcome)
        ensures
            final(self)@ == (LogEventView { outcome, ..old(self)@ }),
    {
        self.event.outcome = outcome;
    }
}

} // verus!
