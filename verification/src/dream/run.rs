//! A dream cycle that the operator starts: what it runs with, and what is
//! printed.

use vstd::prelude::*;

use crate::text::{copy_opt, decimal_of};
#[allow(unused_imports)]
use crate::text::{decimal, opt_text, texts};

verus! {

/// The provider that the configuration falls back on.
#[derive(Debug)]
pub struct FallbackProvider {
    pub model: Option<String>,
    pub api_key: Option<String>,
    pub base_url: Option<String>,
}

/// What the configuration says about dream cycles.
#[derive(Debug)]
pub struct DreamConfig {
    /// Changes wait for review instead of being made.
    pub audit_mode: bool,
    /// The model for dream cycles.
    pub model: Option<String>,
    /// The name of the provider that is fallen back on.
    pub fallback: Option<String>,
    pub fallback_provider: Option<FallbackProvider>,
    /// The model where neither this configuration nor the provider names one.
    pub last_resort_model: String,
}

/// What a dream cycle runs with.
#[derive(Debug)]
pub struct DreamPlan {
    pub audit_mode: bool,
    pub provider: String,
    pub model: String,
    pub api_key: Option<String>,
    pub base_url: Option<String>,
    pub dry_run: bool,
    pub verbose: bool,
}

/// What a dream cycle runs with, with texts as sequences.
pub struct DreamPlanView {
    pub audit_mode: bool,
    pub provider: Seq<char>,
    pub model: Seq<char>,
    pub api_key: Option<Seq<char>>,
    pub base_url: Option<Seq<char>>,
    pub dry_run: bool,
    pub verbose: bool,
}

impl View for DreamPlan {
    type V = DreamPlanView;

    open spec fn view(&self) -> DreamPlanView {
        DreamPlanView {
            audit_mode: self.audit_mode,
            provider: self.provider@,
            model: self.model@,
            api_key: opt_text(self.api_key),
            base_url: opt_text(self.base_url),
            dry_run: self.dry_run,
            verbose: self.verbose,
        }
    }
}

/// Why a dream cycle cannot begin.
#[derive(Debug)]
pub enum DreamError {
    NoFallbackProvider,
    /// There is no memory, for the reason given.
    NoMemory(String),
}

/// Why a dream cycle cannot begin, with texts as sequences.
pub enum DreamErrorView {
    NoFallbackProvider,
    NoMemory(Seq<char>),
}

impl View for DreamError {
    type V = DreamErrorView;

    open spec fn view(&self) -> DreamErrorView {
        match *self {
            DreamError::NoFallbackProvider => DreamErrorView::NoFallbackProvider,
            DreamError::NoMemory(cause) => DreamErrorView::NoMemory(cause@),
        }
    }
}

impl DreamError {
    /// What the error says.
    pub fn message(&self) -> (out: String)
        ensures
            out@ == match self@ {
                DreamErrorView::NoFallbackProvider => "dream: no fallback provider configured"@,
                DreamErrorView::NoMemory(_) => "dream: failed to create memory backend"@,
            },
    {
        match self {
            DreamError::NoFallbackProvider => "dream: no fallback provider configured".to_owned(),
            DreamError::NoMemory(_) => "dream: failed to create memory backend".to_owned(),
        }
    }
}

/// The first text that is there.
pub open spec fn first_of(
    a: Option<Seq<char>>,
    b: Option<Seq<char>>,
    otherwise: Seq<char>,
) -> Seq<char> {
    match (a, b) {
        (Some(s), _) => s,
        (None, Some(s)) => s,
        (None, None) => otherwise,
    }
}

/// What a dream cycle runs with: a dry run always leaves changes for review;
/// the model is the one for dream cycles, else the provider's own, else the
/// one of last resort.
pub open spec fn planned(
    config: DreamConfig,
    provider: FallbackProvider,
    dry_run: bool,
    verbose: bool,
) -> DreamPlanView {
    DreamPlanView {
        audit_mode: dry_run || config.audit_mode,
        provider: first_of(opt_text(config.fallback), None, "anthropic"@),
        model: first_of(
            opt_text(config.model),
            opt_text(provider.model),
            config.last_resort_model@,
        ),
        api_key: opt_text(provider.api_key),
        base_url: opt_text(provider.base_url),
        dry_run,
        verbose,
    }
}

fn copy_first(a: &Option<String>, b: &Option<String>, otherwise: &str) -> (out: String)
    ensures
        out@ == first_of(opt_text(*a), opt_text(*b), otherwise@),
{
    match a {
        Some(s) => s.clone(),
        None => match b {
            Some(s) => s.clone(),
            None => otherwise.to_owned(),
        },
    }
}

/// Begins a dream cycle: an error where the configuration has no provider to
/// fall back on.
pub fn run_dream(config: &DreamConfig, dry_run: bool, verbose: bool) -> (out: Result<
    DreamPlan,
    DreamError,
>)
    ensures
        match out {
            Ok(plan) => config.fallback_provider is Some && plan@ == planned(
                *config,
                config.fallback_provider->0,
                dry_run,
                verbose,
            ),
            Err(e) => config.fallback_provider is None && e@ == DreamErrorView::NoFallbackProvider,
        },
        out is Ok && config.model is Some ==> out->Ok_0.model@ == config.model->0@,
        out is Ok ==> out->Ok_0.dry_run == dry_run && out->Ok_0.verbose == verbose,
        out is Ok && dry_run ==> out->Ok_0.audit_mode,
{
    match &config.fallback_provider {
        Some(provider) => Ok(
            DreamPlan {
                audit_mode: dry_run || config.audit_mode,
                provider: copy_first(&config.fallback, &None, "anthropic"),
                model: copy_first(
                    &config.model,
                    &provider.model,
                    config.last_resort_model.as_str(),
                ),
                api_key: copy_opt(&provider.api_key),
                base_url: copy_opt(&provider.base_url),
                dry_run,
                verbose,
            },
        ),
        None => Err(DreamError::NoFallbackProvider),
    }
}

/// What a dream cycle came to.
#[derive(Debug)]
pub struct CycleResult {
    pub gathered_count: usize,
    pub consolidated_count: usize,
    pub pruned_count: usize,
    pub insights: Vec<String>,
    pub report_summary: Option<String>,
}

/// What a dream cycle came to, with texts as sequences.
pub struct CycleResultView {
    pub gathered_count: usize,
    pub consolidated_count: usize,
    pub pruned_count: usize,
    pub insights: Seq<Seq<char>>,
    pub report_summary: Option<Seq<char>>,
}

impl View for CycleResult {
    type V = CycleResultView;

    open spec fn view(&self) -> CycleResultView {
        CycleResultView {
            gathered_count: self.gathered_count,
            consolidated_count: self.consolidated_count,
            pruned_count: self.pruned_count,
            insights: texts(self.insights@),
            report_summary: opt_text(self.report_summary),
        }
    }
}

/// The operator's own wording, where there is one, for what is printed before
/// a cycle.
#[derive(Debug)]
pub struct StartTexts {
    pub starting: Option<String>,
    pub dry_run_mode: String,
}

/// The operator's own wording, where there is one, for what is printed after a
/// cycle.
#[derive(Debug)]
pub struct EndTexts {
    pub complete: Option<String>,
    pub insights_header: String,
    pub summary: Option<String>,
    pub dry_run_notice: String,
}

/// `text` as a line.
pub open spec fn line(text: Seq<char>) -> Seq<char> {
    text + "\n"@
}

/// `text` as a line below an empty one.
pub open spec fn apart(text: Seq<char>) -> Seq<char> {
    "\n"@ + text + "\n"@
}

/// The text that is there, else `otherwise`.
pub open spec fn worded(own: Option<Seq<char>>, otherwise: Seq<char>) -> Seq<char> {
    match own {
        Some(s) => s,
        None => otherwise,
    }
}

/// What is said as a cycle starts.
pub open spec fn starting(plan: DreamPlanView, backend: Seq<char>) -> Seq<char> {
    "Dream cycle starting...\n  Provider: "@ + plan.provider + "\n  Model: "@ + plan.model
        + "\n  Memory backend: "@ + backend
}

/// What is printed before a cycle: nothing, unless more is asked for.
pub open spec fn printed_before(
    plan: DreamPlanView,
    backend: Seq<char>,
    texts: StartTexts,
) -> Seq<char> {
    if plan.verbose {
        let first = line(worded(opt_text(texts.starting), starting(plan, backend)));
        if plan.dry_run {
            first + line(texts.dry_run_mode@)
        } else {
            first
        }
    } else {
        Seq::empty()
    }
}

/// What is said as a cycle ends.
pub open spec fn complete(result: CycleResultView) -> Seq<char> {
    "Dream cycle complete: "@ + decimal(result.gathered_count as nat) + " memories gathered, "@
        + decimal(result.consolidated_count as nat) + " insights consolidated, "@ + decimal(
        result.pruned_count as nat,
    ) + " pruned"@
}

/// The insights, numbered from one.
pub open spec fn numbered(insights: Seq<Seq<char>>) -> Seq<char>
    decreases insights.len(),
{
    if insights.len() == 0 {
        Seq::empty()
    } else {
        numbered(insights.drop_last()) + ("  "@ + decimal(insights.len()) + ". "@ + insights.last()
            + "\n"@)
    }
}

/// What is printed after a cycle: what it came to, its insights and its
/// summary where it has any, and a notice that a dry run changed nothing.
pub open spec fn printed_after(
    plan: DreamPlanView,
    result: CycleResultView,
    texts: EndTexts,
) -> Seq<char> {
    let first = line(worded(opt_text(texts.complete), complete(result)));
    let second = if result.insights.len() > 0 {
        first + apart(texts.insights_header@) + numbered(result.insights)
    } else {
        first
    };
    let third = match result.report_summary {
        Some(summary) => second + apart(worded(opt_text(texts.summary), "Summary: "@ + summary)),
        None => second,
    };
    if plan.dry_run {
        third + apart(texts.dry_run_notice@)
    } else {
        third
    }
}

fn line_of(text: &str) -> (out: String)
    ensures
        out@ == line(text@),
{
    let mut out = text.to_owned();
    out.append("\n");
    out
}

fn apart_of(text: &str) -> (out: String)
    ensures
        out@ == apart(text@),
{
    let mut out = "\n".to_owned();
    out.append(text);
    out.append("\n");
    out
}

fn numbered_of(insights: &Vec<String>) -> (out: String)
    ensures
        out@ == numbered(texts(insights@)),
{
    let ghost all = texts(insights@);
    let mut out = String::new();
    let mut i: usize = 0;
    proof {
        assert(all.take(0) =~= Seq::<Seq<char>>::empty());
        assert(out@ =~= Seq::<char>::empty());
    }
    while i < insights.len()
        invariant
            i <= insights@.len(),
            all == texts(insights@),
            out@ == numbered(all.take(i as int)),
        decreases insights@.len() - i,
    {
        let mut row = "  ".to_owned();
        let n = decimal_of(i as u64 + 1);
        row.append(n.as_str());
        row.append(". ");
        row.append(insights[i].as_str());
        row.append("\n");
        out.append(row.as_str());
        proof {
            let upto = all.take(i + 1);
            assert(upto.drop_last() =~= all.take(i as int));
            assert(upto.last() == insights@[i as int]@);
        }
        i = i + 1;
    }
    proof {
        assert(all.take(all.len() as int) =~= all);
    }
    out
}

impl DreamPlan {
    /// Goes on once the memory was opened, or could not be.
    pub fn memory_opened(&self, failure: Option<String>) -> (out: Result<(), DreamError>)
        ensures
            match failure {
                None => out is Ok,
                Some(cause) => out is Err && out->Err_0@ == DreamErrorView::NoMemory(cause@),
            },
    {
        match failure {
            None => Ok(()),
            Some(cause) => Err(DreamError::NoMemory(cause)),
        }
    }

    /// What is printed before the cycle, on a memory backend of this name.
    pub fn before(&self, backend: &str, texts: &StartTexts) -> (out: String)
        ensures
            out@ == printed_before(self@, backend@, *texts),
    {
        if !self.verbose {
            let none = String::new();
            proof {
                assert(none@ =~= Seq::<char>::empty());
            }
            return none;
        }
        let mut out: String = match &texts.starting {
            Some(own) => line_of(own.as_str()),
            None => {
                let mut text = "Dream cycle starting...\n  Provider: ".to_owned();
                text.append(self.provider.as_str());
                text.append("\n  Model: ");
                text.append(self.model.as_str());
                text.append("\n  Memory backend: ");
                text.append(backend);
                line_of(text.as_str())
            },
        };
        if self.dry_run {
            let mode = line_of(texts.dry_run_mode.as_str());
            out.append(mode.as_str());
        }
        out
    }

    /// What is printed after the cycle.
    pub fn after(&self, result: &CycleResult, texts: &EndTexts) -> (out: String)
        ensures
            out@ == printed_after(self@, result@, *texts),
    {
        let mut out: String = match &texts.complete {
            Some(own) => line_of(own.as_str()),
            None => {
                let mut text = "Dream cycle complete: ".to_owned();
                let gathered = decimal_of(result.gathered_count as u64);
                text.append(gathered.as_str());
                text.append(" memories gathered, ");
                let consolidated = decimal_of(result.consolidated_count as u64);
                text.append(consolidated.as_str());
                text.append(" insights consolidated, ");
                let pruned = decimal_of(result.pruned_count as u64);
                text.append(pruned.as_str());
                text.append(" pruned");
                line_of(text.as_str())
            },
        };
        if result.insights.len() > 0 {
            let header = apart_of(texts.insights_header.as_str());
            out.append(header.as_str());
            let rows = numbered_of(&result.insights);
            out.append(rows.as_str());
        }
        if let Some(summary) = &result.report_summary {
            let shown: String = match &texts.summary {
                Some(own) => apart_of(own.as_str()),
                None => {
                    let mut text = "Summary: ".to_owned();
                    text.append(summary.as_str());
                    apart_of(text.as_str())
                },
            };
            out.append(shown.as_str());
        }
        if self.dry_run {
            let notice = apart_of(texts.dry_run_notice.as_str());
            out.append(notice.as_str());
        }
        out
    }
}

/// What is printed when the operator asks for the report, and whether it then
/// counts as delivered.
#[derive(Debug)]
pub struct ShownReport {
    pub printed: String,
    pub deliver: bool,
}

/// What is printed of the report that waits, if one does; a report that was
/// printed counts as delivered.
pub fn show_report(report: Option<String>, no_report: &str) -> (out: ShownReport)
    ensures
        out.deliver == (report is Some),
        out.printed@ == line(worded(opt_text(report), no_report@)),
        report is Some ==> out.printed@ == report->0@ + "\n"@,
        report is None ==> out.printed@ == no_report@ + "\n"@,
{
    match report {
        Some(text) => ShownReport { printed: line_of(text.as_str()), deliver: true },
        None => ShownReport { printed: line_of(no_report), deliver: false },
    }
}

// ---------------------------------------------------------------------------
// Laws
// ---------------------------------------------------------------------------

/// A dry run never makes changes on its own: they wait for review, whatever
/// the configuration says. A run that is not dry goes by the configuration.
pub proof fn law_dry_run_leaves_changes_for_review(
    config: DreamConfig,
    provider: FallbackProvider,
    verbose: bool,
)
    ensures
        planned(config, provider, true, verbose).audit_mode,
        planned(config, provider, false, verbose).audit_mode == config.audit_mode,
{
}

/// A cycle runs with the model that is set for cycles, else the provider's own,
/// else the one of last resort; with the provider's key and address; and as dry
/// and as verbose as it was asked to be.
pub proof fn law_cycle_runs_with_what_is_configured(
    config: DreamConfig,
    provider: FallbackProvider,
    dry_run: bool,
    verbose: bool,
)
    ensures
        ({
            let plan = planned(config, provider, dry_run, verbose);
            &&& config.model is Some ==> plan.model == config.model->0@
            &&& config.model is None && provider.model is Some ==> plan.model == provider.model->0@
            &&& config.model is None && provider.model is None ==> plan.model
                == config.last_resort_model@
            &&& config.fallback is Some ==> plan.provider == config.fallback->0@
            &&& config.fallback is None ==> plan.provider == "anthropic"@
            &&& plan.api_key is Some <==> provider.api_key is Some
            &&& plan.api_key is Some ==> plan.api_key->0 == provider.api_key->0@
            &&& plan.base_url is Some <==> provider.base_url is Some
            &&& plan.base_url is Some ==> plan.base_url->0 == provider.base_url->0@
            &&& plan.audit_mode <==> config.audit_mode || dry_run
            &&& plan.dry_run == dry_run
            &&& plan.verbose == verbose
        }),
{
}

/// What is printed before a cycle: nothing unless more is asked for; then the
/// provider, the model and the memory, or the operator's own wording, and for a
/// dry run the line that says so.
pub proof fn law_printed_before_a_cycle(
    plan: DreamPlanView,
    backend: Seq<char>,
    texts: StartTexts,
)
    ensures
        ({
            let printed = printed_before(plan, backend, texts);
            let first = if texts.starting is Some {
                texts.starting->0@
            } else {
                "Dream cycle starting...\n  Provider: "@ + plan.provider + "\n  Model: "@
                    + plan.model + "\n  Memory backend: "@ + backend
            };
            &&& !plan.verbose ==> printed.len() == 0
            &&& plan.verbose && !plan.dry_run ==> printed == first + "\n"@
            &&& plan.verbose && plan.dry_run ==> printed == first + "\n"@ + (texts.dry_run_mode@
                + "\n"@)
        }),
{
}

/// What is printed after a cycle: what it came to, or the operator's own
/// wording for that; below it the insights, if there are any, the summary, if
/// there is one, and for a dry run the notice.
pub proof fn law_printed_after_a_cycle(
    plan: DreamPlanView,
    result: CycleResultView,
    texts: EndTexts,
)
    ensures
        ({
            let printed = printed_after(plan, result, texts);
            let first = if texts.complete is Some {
                texts.complete->0@
            } else {
                "Dream cycle complete: "@ + decimal(result.gathered_count as nat)
                    + " memories gathered, "@ + decimal(result.consolidated_count as nat)
                    + " insights consolidated, "@ + decimal(result.pruned_count as nat)
                    + " pruned"@
            };
            let insights = if result.insights.len() > 0 {
                "\n"@ + texts.insights_header@ + "\n"@ + numbered(result.insights)
            } else {
                Seq::empty()
            };
            let told = if texts.summary is Some {
                texts.summary->0@
            } else {
                "Summary: "@ + result.report_summary->0
            };
            let summary = if result.report_summary is Some {
                "\n"@ + told + "\n"@
            } else {
                Seq::empty()
            };
            let notice = if plan.dry_run {
                "\n"@ + texts.dry_run_notice@ + "\n"@
            } else {
                Seq::empty()
            };
            printed == first + "\n"@ + insights + summary + notice
        }),
{
    let printed = printed_after(plan, result, texts);
    let first = line(worded(opt_text(texts.complete), complete(result)));
    let none = Seq::<char>::empty();
    assert(first + none =~= first);
    let insights = if result.insights.len() > 0 {
        "\n"@ + texts.insights_header@ + "\n"@ + numbered(result.insights)
    } else {
        none
    };
    let second = if result.insights.len() > 0 {
        first + apart(texts.insights_header@) + numbered(result.insights)
    } else {
        first
    };
    assert(second =~= first + insights);
    assert(second + none =~= second);
    let summary = if result.report_summary is Some {
        apart(worded(opt_text(texts.summary), "Summary: "@ + result.report_summary->0))
    } else {
        none
    };
    assert(second + summary + none =~= second + summary);
}

/// Insights are numbered from one, each on a line of its own.
pub proof fn law_insights_are_numbered(insights: Seq<Seq<char>>, insight: Seq<char>)
    ensures
        numbered(Seq::empty()).len() == 0,
        numbered(insights.push(insight)) == numbered(insights) + ("  "@ + decimal(
            insights.len() + 1,
        ) + ". "@ + insight + "\n"@),
{
    assert(insights.push(insight).drop_last() =~= insights);
}

} // verus!
