//! Changes that a dream cycle proposes and that wait for review in a file of
//! the workspace.

use vstd::prelude::*;

use crate::path::join_path;
#[allow(unused_imports)]
use crate::path::join;
#[allow(unused_imports)]
use crate::text::{opt_text, texts};

verus! {

/// The file that waiting changes stand in.
pub const PENDING_FILENAME: &'static str = "dream_pending.json";

/// The changes that a dream cycle proposes.
#[derive(Debug)]
pub struct DreamPending {
    /// Insights to remember.
    pub insights: Vec<StagedInsight>,
    /// Keys of memories to forget.
    pub proposed_prunes: Vec<String>,
    /// When they were proposed, in seconds since the start of 1970 and the
    /// nanoseconds after that.
    pub timestamp: (i64, u32),
    /// What the cycle found.
    pub summary: Option<String>,
}

/// An insight to remember.
#[derive(Debug)]
pub struct StagedInsight {
    pub content: String,
    /// How much it matters, as the bits of a double-precision number.
    pub importance_bits: u64,
}

/// The changes that a dream cycle proposes, with texts as sequences.
pub struct DreamPendingView {
    pub insights: Seq<StagedInsightView>,
    pub proposed_prunes: Seq<Seq<char>>,
    pub timestamp: (i64, u32),
    pub summary: Option<Seq<char>>,
}

/// An insight to remember, with its text as a sequence.
pub struct StagedInsightView {
    pub content: Seq<char>,
    pub importance_bits: u64,
}

impl View for StagedInsight {
    type V = StagedInsightView;

    open spec fn view(&self) -> StagedInsightView {
        StagedInsightView { content: self.content@, importance_bits: self.importance_bits }
    }
}

impl View for DreamPending {
    type V = DreamPendingView;

    open spec fn view(&self) -> DreamPendingView {
        DreamPendingView {
            insights: Seq::new(self.insights@.len(), |i: int| self.insights@[i]@),
            proposed_prunes: texts(self.proposed_prunes@),
            timestamp: self.timestamp,
            summary: opt_text(self.summary),
        }
    }
}

/// What went wrong with the waiting changes. A `cause` is what the step that
/// failed said of it.
#[derive(Debug)]
pub enum PendingError {
    NotSerialized { cause: String },
    NotWritten { path: String, cause: String },
    NotRead { path: String, cause: String },
    NotParsed { path: String, cause: String },
    NotRemoved { path: String, cause: String },
}

/// What went wrong with the waiting changes, with texts as sequences.
pub enum PendingErrorView {
    NotSerialized { cause: Seq<char> },
    NotWritten { path: Seq<char>, cause: Seq<char> },
    NotRead { path: Seq<char>, cause: Seq<char> },
    NotParsed { path: Seq<char>, cause: Seq<char> },
    NotRemoved { path: Seq<char>, cause: Seq<char> },
}

impl View for PendingError {
    type V = PendingErrorView;

    open spec fn view(&self) -> PendingErrorView {
        match *self {
            PendingError::NotSerialized { cause } => PendingErrorView::NotSerialized {
                cause: cause@,
            },
            PendingError::NotWritten { path, cause } => PendingErrorView::NotWritten {
                path: path@,
                cause: cause@,
            },
            PendingError::NotRead { path, cause } => PendingErrorView::NotRead {
                path: path@,
                cause: cause@,
            },
            PendingError::NotParsed { path, cause } => PendingErrorView::NotParsed {
                path: path@,
                cause: cause@,
            },
            PendingError::NotRemoved { path, cause } => PendingErrorView::NotRemoved {
                path: path@,
                cause: cause@,
            },
        }
    }
}

impl PendingErrorView {
    /// What the error says.
    pub open spec fn text(self) -> Seq<char> {
        match self {
            PendingErrorView::NotSerialized { .. } => "dream pending: failed to serialize"@,
            PendingErrorView::NotWritten { path, .. } => "dream pending: failed to write "@ + path,
            PendingErrorView::NotRead { path, .. } => "dream pending: failed to read "@ + path,
            PendingErrorView::NotParsed { path, .. } => "dream pending: failed to parse "@ + path,
            PendingErrorView::NotRemoved { path, .. } => "dream pending: failed to remove "@ + path,
        }
    }
}

impl PendingError {
    /// What the error says.
    pub fn message(&self) -> (out: String)
        ensures
            out@ == self@.text(),
    {
        match self {
            PendingError::NotSerialized { .. } => "dream pending: failed to serialize".to_owned(),
            PendingError::NotWritten { path, .. } => {
                let mut out = "dream pending: failed to write ".to_owned();
                out.append(path.as_str());
                out
            },
            PendingError::NotRead { path, .. } => {
                let mut out = "dream pending: failed to read ".to_owned();
                out.append(path.as_str());
                out
            },
            PendingError::NotParsed { path, .. } => {
                let mut out = "dream pending: failed to parse ".to_owned();
                out.append(path.as_str());
                out
            },
            PendingError::NotRemoved { path, .. } => {
                let mut out = "dream pending: failed to remove ".to_owned();
                out.append(path.as_str());
                out
            },
        }
    }
}

/// Where the waiting changes of a workspace stand.
pub open spec fn pending_at(workspace: Seq<char>) -> Seq<char> {
    join(workspace, PENDING_FILENAME@)
}

/// Where the waiting changes of a workspace stand.
pub fn pending_path(workspace_dir: &str) -> (out: String)
    ensures
        out@ == pending_at(workspace_dir@),
{
    join_path(workspace_dir, PENDING_FILENAME)
}

/// What came of writing the waiting changes.
#[derive(Debug)]
pub enum SaveOutcome {
    Written,
    /// They have no form as a file, for the reason given.
    NotSerialized(String),
    /// The file could not be written, for the reason given.
    NotWritten(String),
}

/// What came of reading the waiting changes.
#[derive(Debug)]
pub enum LoadOutcome {
    /// There is no such file.
    Missing,
    /// The file could not be read, for the reason given.
    NotRead(String),
    /// The file does not hold changes, for the reason given.
    NotParsed(String),
    Read(DreamPending),
}

/// What came of removing the waiting changes.
#[derive(Debug)]
pub enum ClearOutcome {
    /// There is no such file.
    Missing,
    Removed,
    /// The file could not be removed, for the reason given.
    NotRemoved(String),
}

/// What a write is answered with.
pub open spec fn save_result(workspace: Seq<char>, outcome: SaveOutcome) -> Result<
    (),
    PendingErrorView,
> {
    match outcome {
        SaveOutcome::Written => Ok(()),
        SaveOutcome::NotSerialized(cause) => Err(
            PendingErrorView::NotSerialized { cause: cause@ },
        ),
        SaveOutcome::NotWritten(cause) => Err(
            PendingErrorView::NotWritten { path: pending_at(workspace), cause: cause@ },
        ),
    }
}

/// What a read is answered with: none wait where there is no file.
pub open spec fn load_result(workspace: Seq<char>, outcome: LoadOutcome) -> Result<
    Option<DreamPendingView>,
    PendingErrorView,
> {
    match outcome {
        LoadOutcome::Missing => Ok(None),
        LoadOutcome::NotRead(cause) => Err(
            PendingErrorView::NotRead { path: pending_at(workspace), cause: cause@ },
        ),
        LoadOutcome::NotParsed(cause) => Err(
            PendingErrorView::NotParsed { path: pending_at(workspace), cause: cause@ },
        ),
        LoadOutcome::Read(pending) => Ok(Some(pending@)),
    }
}

/// What a removal is answered with. That there is no file is no error.
pub open spec fn clear_result(workspace: Seq<char>, outcome: ClearOutcome) -> Result<
    (),
    PendingErrorView,
> {
    match outcome {
        ClearOutcome::Missing => Ok(()),
        ClearOutcome::Removed => Ok(()),
        ClearOutcome::NotRemoved(cause) => Err(
            PendingErrorView::NotRemoved { path: pending_at(workspace), cause: cause@ },
        ),
    }
}

impl DreamPending {
    /// The end of an attempt to write the changes to `pending_path`.
    pub fn save(&self, workspace_dir: &str, outcome: SaveOutcome) -> (out: Result<
        (),
        PendingError,
    >)
        ensures
            match out {
                Ok(_) => save_result(workspace_dir@, outcome) is Ok,
                Err(e) => save_result(workspace_dir@, outcome) == Err::<(), _>(e@),
            },
    {
        match outcome {
            SaveOutcome::Written => Ok(()),
            SaveOutcome::NotSerialized(cause) => Err(PendingError::NotSerialized { cause }),
            SaveOutcome::NotWritten(cause) => Err(
                PendingError::NotWritten { path: pending_path(workspace_dir), cause },
            ),
        }
    }

    /// The end of an attempt to read the changes from `pending_path`: none
    /// wait where there is no file.
    pub fn load(workspace_dir: &str, outcome: LoadOutcome) -> (out: Result<
        Option<DreamPending>,
        PendingError,
    >)
        ensures
            match out {
                Ok(Some(pending)) => outcome == LoadOutcome::Read(pending) && load_result(
                    workspace_dir@,
                    outcome,
                ) == Ok::<_, PendingErrorView>(Some(pending@)),
                Ok(None) => load_result(workspace_dir@, outcome) == Ok::<_, PendingErrorView>(
                    None::<DreamPendingView>,
                ),
                Err(e) => load_result(workspace_dir@, outcome) == Err::<
                    Option<DreamPendingView>,
                    _,
                >(e@),
            },
    {
        match outcome {
            LoadOutcome::Missing => Ok(None),
            LoadOutcome::NotRead(cause) => Err(
                PendingError::NotRead { path: pending_path(workspace_dir), cause },
            ),
            LoadOutcome::NotParsed(cause) => Err(
                PendingError::NotParsed { path: pending_path(workspace_dir), cause },
            ),
            LoadOutcome::Read(pending) => Ok(Some(pending)),
        }
    }

    /// The end of an attempt to remove the file at `pending_path`. That there
    /// is none is no error.
    pub fn clear(workspace_dir: &str, outcome: ClearOutcome) -> (out: Result<(), PendingError>)
        ensures
            match out {
                Ok(_) => clear_result(workspace_dir@, outcome) is Ok,
                Err(e) => clear_result(workspace_dir@, outcome) == Err::<(), _>(e@),
            },
    {
        match outcome {
            ClearOutcome::Missing => Ok(()),
            ClearOutcome::Removed => Ok(()),
            ClearOutcome::NotRemoved(cause) => Err(
                PendingError::NotRemoved { path: pending_path(workspace_dir), cause },
            ),
        }
    }
}

// ---------------------------------------------------------------------------
// Laws
// ---------------------------------------------------------------------------

/// How the outcome of a write goes with the text of the file before and after
/// it. What a write that failed leaves behind is open.
pub open spec fn writes(
    before: Option<Seq<char>>,
    text: Seq<char>,
    outcome: SaveOutcome,
    after: Option<Seq<char>>,
) -> bool {
    match outcome {
        SaveOutcome::Written => after == Some(text),
        SaveOutcome::NotSerialized(_) => after == before,
        SaveOutcome::NotWritten(_) => true,
    }
}

/// How the outcome of a read goes with the text of the file, where `parse`
/// makes changes of a text.
pub open spec fn reads(
    file: Option<Seq<char>>,
    parse: spec_fn(Seq<char>) -> Option<DreamPendingView>,
    outcome: LoadOutcome,
) -> bool {
    match outcome {
        LoadOutcome::Missing => file is None,
        LoadOutcome::NotRead(_) => file is Some,
        LoadOutcome::NotParsed(_) => file is Some && parse(file->0) is None,
        LoadOutcome::Read(pending) => file is Some && parse(file->0) == Some(pending@),
    }
}

/// How the outcome of a removal goes with the text of the file before and
/// after it.
pub open spec fn removes(
    before: Option<Seq<char>>,
    outcome: ClearOutcome,
    after: Option<Seq<char>>,
) -> bool {
    match outcome {
        ClearOutcome::Missing => before is None && after is None,
        ClearOutcome::Removed => after is None,
        ClearOutcome::NotRemoved(_) => after == before,
    }
}

/// Two sets of changes are the same but for how much each insight matters.
pub open spec fn same_changes(a: DreamPendingView, b: DreamPendingView) -> bool {
    &&& a.insights.len() == b.insights.len()
    &&& forall|i: int|
        0 <= i < a.insights.len() ==> #[trigger] a.insights[i].content == b.insights[i].content
    &&& a.proposed_prunes == b.proposed_prunes
    &&& a.timestamp == b.timestamp
    &&& a.summary == b.summary
}

/// Changes that were saved are loaded again, whatever the file held before, as
/// long as the file can be read and the text that was written for them is
/// parsed to the same changes.
pub proof fn law_saved_changes_are_loaded(
    workspace: Seq<char>,
    pending: DreamPendingView,
    render: spec_fn(DreamPendingView) -> Seq<char>,
    parse: spec_fn(Seq<char>) -> Option<DreamPendingView>,
    before: Option<Seq<char>>,
    saving: SaveOutcome,
    file: Option<Seq<char>>,
    loading: LoadOutcome,
)
    requires
        parse(render(pending)) is Some,
        same_changes(parse(render(pending))->0, pending),
        writes(before, render(pending), saving, file),
        save_result(workspace, saving) is Ok,
        reads(file, parse, loading),
        !(loading is NotRead),
    ensures
        load_result(workspace, loading) is Ok,
        load_result(workspace, loading)->Ok_0 is Some,
        same_changes(load_result(workspace, loading)->Ok_0->0, pending),
{
}

/// Once the file is removed, no changes wait.
pub proof fn law_cleared_changes_are_gone(
    workspace: Seq<char>,
    parse: spec_fn(Seq<char>) -> Option<DreamPendingView>,
    before: Option<Seq<char>>,
    clearing: ClearOutcome,
    file: Option<Seq<char>>,
    loading: LoadOutcome,
)
    requires
        removes(before, clearing, file),
        clear_result(workspace, clearing) is Ok,
        reads(file, parse, loading),
    ensures
        load_result(workspace, loading) == Ok::<_, PendingErrorView>(None::<DreamPendingView>),
{
}

/// Two reads of a file that stays as it is and can be read load the same.
pub proof fn law_load_repeats(
    workspace: Seq<char>,
    parse: spec_fn(Seq<char>) -> Option<DreamPendingView>,
    file: Option<Seq<char>>,
    first: LoadOutcome,
    second: LoadOutcome,
)
    requires
        reads(file, parse, first),
        reads(file, parse, second),
        !(first is NotRead),
        !(second is NotRead),
        load_result(workspace, first) is Ok,
    ensures
        load_result(workspace, second) == load_result(workspace, first),
{
}

/// Where the waiting changes stand, and what each error says.
pub proof fn law_pending_errors_say(workspace: Seq<char>, e: PendingErrorView)
    ensures
        workspace.len() > 0 && workspace.last() != '/' ==> pending_at(workspace) == workspace
            + "/dream_pending.json"@,
        match e {
            PendingErrorView::NotSerialized { .. } => e.text()
                == "dream pending: failed to serialize"@,
            PendingErrorView::NotWritten { path, .. } => e.text()
                == "dream pending: failed to write "@ + path,
            PendingErrorView::NotRead { path, .. } => e.text() == "dream pending: failed to read "@
                + path,
            PendingErrorView::NotParsed { path, .. } => e.text()
                == "dream pending: failed to parse "@ + path,
            PendingErrorView::NotRemoved { path, .. } => e.text()
                == "dream pending: failed to remove "@ + path,
        },
{
    reveal_strlit("dream_pending.json");
    reveal_strlit("/dream_pending.json");
    if workspace.len() > 0 && workspace.last() != '/' {
        assert(pending_at(workspace) =~= workspace + "/dream_pending.json"@);
    }
}

/// What each outcome is answered with: what was read is handed on, a file that
/// is not there is no error, and each failure is told with its cause.
pub proof fn law_outcomes_are_answered(
    workspace: Seq<char>,
    saving: SaveOutcome,
    loading: LoadOutcome,
    clearing: ClearOutcome,
)
    ensures
        match saving {
            SaveOutcome::Written => save_result(workspace, saving) is Ok,
            SaveOutcome::NotSerialized(why) => save_result(workspace, saving) matches Err(
                PendingErrorView::NotSerialized { cause },
            ) && cause == why@,
            SaveOutcome::NotWritten(why) => save_result(workspace, saving) matches Err(
                PendingErrorView::NotWritten { path, cause },
            ) && path == pending_at(workspace) && cause == why@,
        },
        match loading {
            LoadOutcome::Missing => load_result(workspace, loading) matches Ok(None),
            LoadOutcome::NotRead(why) => load_result(workspace, loading) matches Err(
                PendingErrorView::NotRead { path, cause },
            ) && path == pending_at(workspace) && cause == why@,
            LoadOutcome::NotParsed(why) => load_result(workspace, loading) matches Err(
                PendingErrorView::NotParsed { path, cause },
            ) && path == pending_at(workspace) && cause == why@,
            LoadOutcome::Read(pending) => load_result(workspace, loading) matches Ok(Some(q))
                && q == pending@,
        },
        match clearing {
            ClearOutcome::Missing => clear_result(workspace, clearing) is Ok,
            ClearOutcome::Removed => clear_result(workspace, clearing) is Ok,
            ClearOutcome::NotRemoved(why) => clear_result(workspace, clearing) matches Err(
                PendingErrorView::NotRemoved { path, cause },
            ) && path == pending_at(workspace) && cause == why@,
        },
{
}

} // verus!
