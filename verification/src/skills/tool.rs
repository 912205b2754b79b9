//! What a tool gives back.

use vstd::prelude::*;

#[allow(unused_imports)]
use crate::text::opt_text;

verus! {

/// The outcome of a tool call.
#[derive(Debug)]
pub struct ToolResult {
    pub success: bool,
    pub output: String,
    pub error: Option<String>,
}

/// The outcome of a tool call, with its texts as sequences.
pub struct ToolResultView {
    pub success: bool,
    pub output: Seq<char>,
    pub error: Option<Seq<char>>,
}

impl View for ToolResult {
    type V = ToolResultView;

    open spec fn view(&self) -> ToolResultView {
        ToolResultView {
            success: self.success,
            output: self.output@,
            error: opt_text(self.error),
        }
    }
}

/// A call that did what it was asked to.
pub open spec fn success(output: Seq<char>) -> ToolResultView {
    ToolResultView { success: true, output, error: None }
}

/// A call that did not, and why.
pub open spec fn refusal(error: Seq<char>) -> ToolResultView {
    ToolResultView { success: false, output: Seq::empty(), error: Some(error) }
}

impl ToolResult {
    /// A call that did what it was asked to.
    pub fn done(output: String) -> (out: ToolResult)
        ensures
            out@ == success(output@),
            out.success,
            out.output@ == output@,
            out.error is None,
    {
        ToolResult { success: true, output, error: None }
    }

    /// A call that did not, and why.
    pub fn refused(error: String) -> (out: ToolResult)
        ensures
            out@ == refusal(error@),
            !out.success,
            out.output@.len() == 0,
            out.error is Some,
            out.error->0@ == error@,
    {
        let out = ToolResult { success: false, output: String::new(), error: Some(error) };
        proof {
            assert(out.output@ =~= Seq::<char>::empty());
        }
        out
    }
}

/// Where a tool call stands: at its end, or before something that the caller
/// has to find out or carry out first.
#[derive(Debug)]
pub enum Step<S> {
    Done(ToolResult),
    Next(S),
}

/// A step with its texts as sequences.
pub enum StepView<V> {
    Done(ToolResultView),
    Next(V),
}

impl<S: View> View for Step<S> {
    type V = StepView<S::V>;

    open spec fn view(&self) -> StepView<S::V> {
        match *self {
            Step::Done(r) => StepView::Done(r@),
            Step::Next(s) => StepView::Next(s@),
        }
    }
}

/// A tool call that cannot be carried out, for want of an argument.
#[derive(Clone, Copy, PartialEq, Eq, Structural, Debug)]
pub enum ToolError {
    MissingAction,
    MissingSlug,
    PatchWithoutContent,
    WriteWithoutPath,
    WriteWithoutContent,
}

impl ToolError {
    /// What the error says.
    pub open spec fn text(self) -> Seq<char> {
        match self {
            ToolError::MissingAction => "missing `action` argument"@,
            ToolError::MissingSlug => "missing `slug` argument"@,
            ToolError::PatchWithoutContent => "`patch` requires `content`"@,
            ToolError::WriteWithoutPath => "`write_file` requires `file_path`"@,
            ToolError::WriteWithoutContent => "`write_file` requires `content`"@,
        }
    }

    /// What the error says.
    pub fn message(self) -> (out: String)
        ensures
            out@ == self.text(),
    {
        match self {
            ToolError::MissingAction => "missing `action` argument".to_owned(),
            ToolError::MissingSlug => "missing `slug` argument".to_owned(),
            ToolError::PatchWithoutContent => "`patch` requires `content`".to_owned(),
            ToolError::WriteWithoutPath => "`write_file` requires `file_path`".to_owned(),
            ToolError::WriteWithoutContent => "`write_file` requires `content`".to_owned(),
        }
    }
}

} // verus!
