//! Changes to installed skills: a new `SKILL.md`, another support file, a move
//! to the archive.

use vstd::prelude::*;
#[allow(unused_imports)]
use vstd::utf8::encode_utf8;

use super::dirs::{resolve_skill_dir, skills_root};
#[allow(unused_imports)]
use super::dirs::{bad_slug, dir_of, root_of, valid_slug};
use super::stamp::{utc_stamp, STAMP_FORMAT};
#[allow(unused_imports)]
use super::stamp::{stamp_at, stamp_chars, stamp_shape};
use super::tool::{Step, ToolError, ToolResult};
#[allow(unused_imports)]
use super::tool::{refusal, success, StepView, ToolResultView};
use crate::json::{array_value, object_value, push_member, push_text, text_value, Json};
#[allow(unused_imports)]
use crate::json::{items_view, members_view, JsonView};
use crate::path::{join_path, path_lies_in};
#[allow(unused_imports)]
use crate::path::{join, lies_in};
use crate::text::{contains_char, contains_text, decimal_of, same_text, starts_with};
#[allow(unused_imports)]
use crate::text::{decimal, occurs, opt_text};

verus! {

/// The directory that archived skills are moved to, below the skills
/// directory.
pub const ARCHIVE_DIRNAME: &'static str = ".archive";

/// How large a support file can be, in bytes.
pub const MAX_FILE_BYTES: usize = 256 * 1024;

/// When skills may be rewritten.
#[derive(Clone, Copy, PartialEq, Eq, Structural, Debug)]
pub struct SkillImprovementConfig {
    pub enabled: bool,
    pub cooldown_secs: u64,
}

// ---------------------------------------------------------------------------
// patch
// ---------------------------------------------------------------------------

/// A patch that waits to hear whether there is a file at `skill_md`.
#[derive(Debug)]
pub struct PatchLookup {
    pub slug: String,
    pub skill_md: String,
    pub content: Option<String>,
    pub reason: String,
    pub cooldown_secs: u64,
}

/// A patch that waits for a file, with texts as sequences.
pub struct PatchLookupView {
    pub slug: Seq<char>,
    pub skill_md: Seq<char>,
    pub content: Option<Seq<char>>,
    pub reason: Seq<char>,
    pub cooldown_secs: u64,
}

impl View for PatchLookup {
    type V = PatchLookupView;

    open spec fn view(&self) -> PatchLookupView {
        PatchLookupView {
            slug: self.slug@,
            skill_md: self.skill_md@,
            content: opt_text(self.content),
            reason: self.reason@,
            cooldown_secs: self.cooldown_secs,
        }
    }
}

/// A patch that waits to hear whether the skill may be rewritten now.
#[derive(Debug)]
pub struct PatchGate {
    pub slug: String,
    pub content: String,
    pub reason: String,
    pub cooldown_secs: u64,
}

/// A patch that waits for leave, with texts as sequences.
pub struct PatchGateView {
    pub slug: Seq<char>,
    pub content: Seq<char>,
    pub reason: Seq<char>,
    pub cooldown_secs: u64,
}

impl View for PatchGate {
    type V = PatchGateView;

    open spec fn view(&self) -> PatchGateView {
        PatchGateView {
            slug: self.slug@,
            content: self.content@,
            reason: self.reason@,
            cooldown_secs: self.cooldown_secs,
        }
    }
}

/// A patch that is to be carried out: the skill gets this content, for this
/// reason.
#[derive(Debug)]
pub struct PatchWrite {
    pub slug: String,
    pub content: String,
    pub reason: String,
}

/// A patch that is to be carried out, with texts as sequences.
pub struct PatchWriteView {
    pub slug: Seq<char>,
    pub content: Seq<char>,
    pub reason: Seq<char>,
}

impl View for PatchWrite {
    type V = PatchWriteView;

    open spec fn view(&self) -> PatchWriteView {
        PatchWriteView { slug: self.slug@, content: self.content@, reason: self.reason@ }
    }
}

/// Where a patch of the skill `slug` stands at its beginning.
pub open spec fn patch_step(
    workspace: Seq<char>,
    cooldown_secs: u64,
    slug: Seq<char>,
    args: JsonView,
) -> StepView<PatchLookupView> {
    if valid_slug(slug) {
        StepView::Next(
            PatchLookupView {
                slug,
                skill_md: join(dir_of(workspace, slug), "SKILL.md"@),
                content: args.text_member("content"@),
                reason: match args.text_member("reason"@) {
                    Some(reason) => reason,
                    None => "Skill review"@,
                },
                cooldown_secs,
            },
        )
    } else {
        StepView::Done(refusal(bad_slug(slug)))
    }
}

/// Where a patch stands once it is known whether the skill is there.
pub open spec fn patch_found(p: PatchLookupView, present: bool) -> Result<
    StepView<PatchGateView>,
    ToolError,
> {
    if !present {
        Ok(StepView::Done(refusal("Skill '"@ + p.slug + "' not found (no SKILL.md)"@)))
    } else {
        match p.content {
            Some(content) => Ok(
                StepView::Next(
                    PatchGateView {
                        slug: p.slug,
                        content,
                        reason: p.reason,
                        cooldown_secs: p.cooldown_secs,
                    },
                ),
            ),
            None => Err(ToolError::PatchWithoutContent),
        }
    }
}

/// What is said of a skill that may not be rewritten yet.
pub open spec fn on_cooldown(slug: Seq<char>, cooldown_secs: u64) -> Seq<char> {
    "Skill '"@ + slug + "' is on cooldown ("@ + decimal(cooldown_secs as nat)
        + "s window since last update). Try a different skill, add a `references/` file, or emit 'Nothing to save.' if there is no other signal worth keeping."@
}

/// Where a patch stands once it is known whether the skill may be rewritten.
pub open spec fn patch_gated(p: PatchGateView, eligible: bool) -> StepView<PatchWriteView> {
    if eligible {
        StepView::Next(PatchWriteView { slug: p.slug, content: p.content, reason: p.reason })
    } else {
        StepView::Done(refusal(on_cooldown(p.slug, p.cooldown_secs)))
    }
}

/// What is answered to a patch that was carried out, or could not be.
pub open spec fn patch_result(slug: Seq<char>, failure: Option<Seq<char>>) -> ToolResultView {
    match failure {
        None => success("Patched skill '"@ + slug + "'."@),
        Some(e) => refusal("Patch failed: "@ + e),
    }
}

impl PatchLookup {
    /// Goes on with whether the `SKILL.md` is there.
    pub fn found(self, present: bool) -> (out: Result<Step<PatchGate>, ToolError>)
        ensures
            match out {
                Ok(step) => patch_found(self@, present) == Ok::<StepView<PatchGateView>, ToolError>(
                    step@,
                ),
                Err(e) => patch_found(self@, present) == Err::<StepView<PatchGateView>, ToolError>(
                    e,
                ),
            },
    {
        if !present {
            let mut error = "Skill '".to_owned();
            error.append(self.slug.as_str());
            error.append("' not found (no SKILL.md)");
            return Ok(Step::Done(ToolResult::refused(error)));
        }
        match self.content {
            Some(content) => Ok(
                Step::Next(
                    PatchGate {
                        slug: self.slug,
                        content,
                        reason: self.reason,
                        cooldown_secs: self.cooldown_secs,
                    },
                ),
            ),
            None => Err(ToolError::PatchWithoutContent),
        }
    }
}

impl PatchGate {
    /// Goes on with whether the skill may be rewritten now.
    pub fn gate(self, eligible: bool) -> (out: Step<PatchWrite>)
        ensures
            out@ == patch_gated(self@, eligible),
    {
        if eligible {
            return Step::Next(
                PatchWrite { slug: self.slug, content: self.content, reason: self.reason },
            );
        }
        let mut error = "Skill '".to_owned();
        error.append(self.slug.as_str());
        error.append("' is on cooldown (");
        let secs = decimal_of(self.cooldown_secs);
        error.append(secs.as_str());
        error.append(
            "s window since last update). Try a different skill, add a `references/` file, or emit 'Nothing to save.' if there is no other signal worth keeping.",
        );
        Step::Done(ToolResult::refused(error))
    }
}

impl PatchWrite {
    /// The answer, once the patch was carried out or could not be.
    pub fn finish(&self, failure: Option<String>) -> (out: ToolResult)
        ensures
            out@ == patch_result(self@.slug, opt_text(failure)),
    {
        match failure {
            None => {
                let mut output = "Patched skill '".to_owned();
                output.append(self.slug.as_str());
                output.append("'.");
                ToolResult::done(output)
            },
            Some(e) => {
                let mut error = "Patch failed: ".to_owned();
                error.append(e.as_str());
                ToolResult::refused(error)
            },
        }
    }
}

// ---------------------------------------------------------------------------
// write_file
// ---------------------------------------------------------------------------

/// A new support file that waits to hear whether there is a directory
/// `skill_dir`.
#[derive(Debug)]
pub struct WriteLookup {
    pub slug: String,
    pub skill_dir: String,
    pub file_path: Option<String>,
    pub content: Option<String>,
}

/// A new support file that waits for a directory, with texts as sequences.
pub struct WriteLookupView {
    pub slug: Seq<char>,
    pub skill_dir: Seq<char>,
    pub file_path: Option<Seq<char>>,
    pub content: Option<Seq<char>>,
}

impl View for WriteLookup {
    type V = WriteLookupView;

    open spec fn view(&self) -> WriteLookupView {
        WriteLookupView {
            slug: self.slug@,
            skill_dir: self.skill_dir@,
            file_path: opt_text(self.file_path),
            content: opt_text(self.content),
        }
    }
}

/// A new support file that waits for the directory above `target` to be made,
/// for the canonical forms of that directory and of `skill_dir`, and to hear
/// what stands at `target`.
#[derive(Debug)]
pub struct WriteTarget {
    pub slug: String,
    pub skill_dir: String,
    pub file_path: String,
    pub target: String,
    pub content: String,
}

/// A new support file that waits for its place, with texts as sequences.
pub struct WriteTargetView {
    pub slug: Seq<char>,
    pub skill_dir: Seq<char>,
    pub file_path: Seq<char>,
    pub target: Seq<char>,
    pub content: Seq<char>,
}

impl View for WriteTarget {
    type V = WriteTargetView;

    open spec fn view(&self) -> WriteTargetView {
        WriteTargetView {
            slug: self.slug@,
            skill_dir: self.skill_dir@,
            file_path: self.file_path@,
            target: self.target@,
            content: self.content@,
        }
    }
}

/// A support file that is to be written: `target` gets this content.
#[derive(Debug)]
pub struct WriteReady {
    pub slug: String,
    pub file_path: String,
    pub target: String,
    pub content: String,
}

/// A support file that is to be written, with texts as sequences.
pub struct WriteReadyView {
    pub slug: Seq<char>,
    pub file_path: Seq<char>,
    pub target: Seq<char>,
    pub content: Seq<char>,
}

impl View for WriteReady {
    type V = WriteReadyView;

    open spec fn view(&self) -> WriteReadyView {
        WriteReadyView {
            slug: self.slug@,
            file_path: self.file_path@,
            target: self.target@,
            content: self.content@,
        }
    }
}

/// Where a new support file stands at the beginning.
pub open spec fn write_step(workspace: Seq<char>, slug: Seq<char>, args: JsonView) -> StepView<
    WriteLookupView,
> {
    if valid_slug(slug) {
        StepView::Next(
            WriteLookupView {
                slug,
                skill_dir: dir_of(workspace, slug),
                file_path: args.text_member("file_path"@),
                content: args.text_member("content"@),
            },
        )
    } else {
        StepView::Done(refusal(bad_slug(slug)))
    }
}

/// The path begins with one of the directories for support files.
pub open spec fn in_support_dir(file_path: Seq<char>) -> bool {
    ||| "references/"@.is_prefix_of(file_path)
    ||| "templates/"@.is_prefix_of(file_path)
    ||| "scripts/"@.is_prefix_of(file_path)
}

/// The path has a part that is not taken.
pub open spec fn has_forbidden(file_path: Seq<char>) -> bool {
    occurs(file_path, ".."@) || file_path.contains('\0')
}

/// Why a support file is not taken, if it is not.
pub open spec fn write_refusal(file_path: Seq<char>, content: Seq<char>) -> Option<Seq<char>> {
    let size = encode_utf8(content).len();
    if !in_support_dir(file_path) {
        Some("file_path must start with one of: references/, templates/, scripts/"@)
    } else if has_forbidden(file_path) {
        Some("file_path contains forbidden segment"@)
    } else if size > MAX_FILE_BYTES {
        Some("content exceeds 262144 bytes ("@ + decimal(size) + " given)"@)
    } else {
        None
    }
}

/// What is said of a skill that is not there.
pub open spec fn not_found(slug: Seq<char>) -> Seq<char> {
    "Skill '"@ + slug + "' not found"@
}

/// Where a new support file stands once it is known whether the skill is
/// there.
pub open spec fn write_found(w: WriteLookupView, present: bool) -> Result<
    StepView<WriteTargetView>,
    ToolError,
> {
    if !present {
        Ok(StepView::Done(refusal(not_found(w.slug))))
    } else {
        match (w.file_path, w.content) {
            (None, _) => Err(ToolError::WriteWithoutPath),
            (_, None) => Err(ToolError::WriteWithoutContent),
            (Some(file_path), Some(content)) => match write_refusal(file_path, content) {
                Some(e) => Ok(StepView::Done(refusal(e))),
                None => Ok(
                    StepView::Next(
                        WriteTargetView {
                            slug: w.slug,
                            skill_dir: w.skill_dir,
                            file_path,
                            target: join(w.skill_dir, file_path),
                            content,
                        },
                    ),
                ),
            },
        }
    }
}

/// What stands where a support file is to be written.
#[derive(Debug)]
pub enum TargetForm {
    /// Nothing.
    Absent,
    /// A file, or a link; this is the canonical form of where it leads,
    /// whether or not something is there yet.
    At(String),
    /// A link that cannot be followed.
    Dangling,
}

/// What stands where a support file is to be written, with texts as sequences.
pub enum TargetFormView {
    Absent,
    At(Seq<char>),
    Dangling,
}

impl View for TargetForm {
    type V = TargetFormView;

    open spec fn view(&self) -> TargetFormView {
        match *self {
            TargetForm::Absent => TargetFormView::Absent,
            TargetForm::At(path) => TargetFormView::At(path@),
            TargetForm::Dangling => TargetFormView::Dangling,
        }
    }
}

impl TargetFormView {
    /// Writing there writes inside `base`, as far as the target itself goes.
    pub open spec fn stays_in(self, base: Seq<char>) -> bool {
        match self {
            TargetFormView::Absent => true,
            TargetFormView::At(path) => lies_in(path, base),
            TargetFormView::Dangling => false,
        }
    }
}

/// The path that is there, else `dir`.
pub open spec fn or_else(path: Option<Seq<char>>, dir: Seq<char>) -> Seq<char> {
    match path {
        Some(p) => p,
        None => dir,
    }
}

/// Where a new support file stands once the canonical forms are known:
/// `skill_dir` stands in for the form of a directory that has none. Neither
/// the directory above the target nor the target itself may lead out of the
/// skill's directory.
pub open spec fn write_placed(
    w: WriteTargetView,
    skill_dir: Option<Seq<char>>,
    parent: Option<Seq<char>>,
    target: TargetFormView,
) -> StepView<WriteReadyView> {
    let base = or_else(skill_dir, w.skill_dir);
    if lies_in(or_else(parent, w.skill_dir), base) && target.stays_in(base) {
        StepView::Next(
            WriteReadyView {
                slug: w.slug,
                file_path: w.file_path,
                target: w.target,
                content: w.content,
            },
        )
    } else {
        StepView::Done(refusal("file_path escapes skill directory"@))
    }
}

/// What is answered once the file is written.
pub open spec fn write_result(w: WriteReadyView) -> ToolResultView {
    success("Wrote "@ + w.file_path + " for skill '"@ + w.slug + "'."@)
}

/// Why a support file is not taken, if it is not.
fn write_refusal_of(file_path: &str, content: &str) -> (out: Option<String>)
    ensures
        opt_text(out) == write_refusal(file_path@, content@),
{
    if !(starts_with(file_path, "references/") || starts_with(file_path, "templates/")
        || starts_with(file_path, "scripts/")) {
        return Some(
            "file_path must start with one of: references/, templates/, scripts/".to_owned(),
        );
    }
    if contains_text(file_path, "..") || contains_char(file_path, '\0') {
        return Some("file_path contains forbidden segment".to_owned());
    }
    let size: usize = content.as_bytes().len();
    if size > MAX_FILE_BYTES {
        let mut error = "content exceeds 262144 bytes (".to_owned();
        let given = decimal_of(size as u64);
        error.append(given.as_str());
        error.append(" given)");
        return Some(error);
    }
    None
}

/// What is said of a skill that is not there.
fn not_found_text(slug: &str) -> (out: String)
    ensures
        out@ == not_found(slug@),
{
    let mut out = "Skill '".to_owned();
    out.append(slug);
    out.append("' not found");
    out
}

impl WriteLookup {
    /// Goes on with whether the skill's directory is there.
    pub fn found(self, present: bool) -> (out: Result<Step<WriteTarget>, ToolError>)
        ensures
            match out {
                Ok(step) => write_found(self@, present) == Ok::<
                    StepView<WriteTargetView>,
                    ToolError,
                >(step@),
                Err(e) => write_found(self@, present) == Err::<StepView<WriteTargetView>, ToolError>(
                    e,
                ),
            },
    {
        if !present {
            return Ok(Step::Done(ToolResult::refused(not_found_text(self.slug.as_str()))));
        }
        let file_path: String = match self.file_path {
            Some(file_path) => file_path,
            None => return Err(ToolError::WriteWithoutPath),
        };
        let content: String = match self.content {
            Some(content) => content,
            None => return Err(ToolError::WriteWithoutContent),
        };
        match write_refusal_of(file_path.as_str(), content.as_str()) {
            Some(e) => Ok(Step::Done(ToolResult::refused(e))),
            None => {
                let target = join_path(self.skill_dir.as_str(), file_path.as_str());
                Ok(
                    Step::Next(
                        WriteTarget {
                            slug: self.slug,
                            skill_dir: self.skill_dir,
                            file_path,
                            target,
                            content,
                        },
                    ),
                )
            },
        }
    }
}

impl WriteTarget {
    /// Goes on with the canonical forms of the skill's directory and of the
    /// directory above the target, as far as there are any, and with what
    /// stands at the target.
    pub fn place(
        self,
        skill_dir: Option<String>,
        parent: Option<String>,
        target: TargetForm,
    ) -> (out: Step<WriteReady>)
        ensures
            out@ == write_placed(self@, opt_text(skill_dir), opt_text(parent), target@),
    {
        let base: &str = match &skill_dir {
            Some(dir) => dir.as_str(),
            None => self.skill_dir.as_str(),
        };
        let place: &str = match &parent {
            Some(dir) => dir.as_str(),
            None => self.skill_dir.as_str(),
        };
        let stays: bool = match &target {
            TargetForm::Absent => true,
            TargetForm::At(path) => path_lies_in(path.as_str(), base),
            TargetForm::Dangling => false,
        };
        if stays && path_lies_in(place, base) {
            Step::Next(
                WriteReady {
                    slug: self.slug,
                    file_path: self.file_path,
                    target: self.target,
                    content: self.content,
                },
            )
        } else {
            Step::Done(ToolResult::refused("file_path escapes skill directory".to_owned()))
        }
    }
}

impl WriteReady {
    /// The answer, once the file is written.
    pub fn finish(&self) -> (out: ToolResult)
        ensures
            out@ == write_result(self@),
    {
        let mut output = "Wrote ".to_owned();
        output.append(self.file_path.as_str());
        output.append(" for skill '");
        output.append(self.slug.as_str());
        output.append("'.");
        ToolResult::done(output)
    }
}

// ---------------------------------------------------------------------------
// archive
// ---------------------------------------------------------------------------

/// A move to the archive that waits to hear whether there is a directory
/// `skill_dir`.
#[derive(Debug)]
pub struct ArchiveLookup {
    pub slug: String,
    pub skill_dir: String,
    pub archive_dir: String,
}

/// A move that waits for a directory, with texts as sequences.
pub struct ArchiveLookupView {
    pub slug: Seq<char>,
    pub skill_dir: Seq<char>,
    pub archive_dir: Seq<char>,
}

impl View for ArchiveLookup {
    type V = ArchiveLookupView;

    open spec fn view(&self) -> ArchiveLookupView {
        ArchiveLookupView {
            slug: self.slug@,
            skill_dir: self.skill_dir@,
            archive_dir: self.archive_dir@,
        }
    }
}

/// A move that waits for `archive_dir` to be made, and to hear whether
/// `target` is taken.
#[derive(Debug)]
pub struct ArchivePlan {
    pub slug: String,
    pub skill_dir: String,
    pub archive_dir: String,
    pub target: String,
}

/// A move that waits for its place, with texts as sequences.
pub struct ArchivePlanView {
    pub slug: Seq<char>,
    pub skill_dir: Seq<char>,
    pub archive_dir: Seq<char>,
    pub target: Seq<char>,
}

impl View for ArchivePlan {
    type V = ArchivePlanView;

    open spec fn view(&self) -> ArchivePlanView {
        ArchivePlanView {
            slug: self.slug@,
            skill_dir: self.skill_dir@,
            archive_dir: self.archive_dir@,
            target: self.target@,
        }
    }
}

/// A move that is to be carried out.
#[derive(Debug)]
pub struct ArchiveMove {
    pub slug: String,
    pub from: String,
    pub to: String,
}

/// A move that is to be carried out, with texts as sequences.
pub struct ArchiveMoveView {
    pub slug: Seq<char>,
    pub from: Seq<char>,
    pub to: Seq<char>,
}

impl View for ArchiveMove {
    type V = ArchiveMoveView;

    open spec fn view(&self) -> ArchiveMoveView {
        ArchiveMoveView { slug: self.slug@, from: self.from@, to: self.to@ }
    }
}

/// The directory of archived skills.
pub open spec fn archive_of(workspace: Seq<char>) -> Seq<char> {
    join(root_of(workspace), ARCHIVE_DIRNAME@)
}

/// Where a move to the archive stands at its beginning.
pub open spec fn archive_step(workspace: Seq<char>, slug: Seq<char>) -> StepView<
    ArchiveLookupView,
> {
    if valid_slug(slug) {
        StepView::Next(
            ArchiveLookupView {
                slug,
                skill_dir: dir_of(workspace, slug),
                archive_dir: archive_of(workspace),
            },
        )
    } else {
        StepView::Done(refusal(bad_slug(slug)))
    }
}

/// Where a move stands once it is known whether the skill is there.
pub open spec fn archive_found(a: ArchiveLookupView, present: bool) -> StepView<ArchivePlanView> {
    if present {
        StepView::Next(
            ArchivePlanView {
                slug: a.slug,
                skill_dir: a.skill_dir,
                archive_dir: a.archive_dir,
                target: join(a.archive_dir, a.slug),
            },
        )
    } else {
        StepView::Done(refusal(not_found(a.slug)))
    }
}

/// The name that a skill gets in the archive where its own is taken.
pub open spec fn stamped(slug: Seq<char>, stamp: Seq<char>) -> Seq<char> {
    slug + "-"@ + stamp
}

/// The move to carry out: under the skill's own name, or under one with a
/// stamp behind it.
pub open spec fn archive_placed(a: ArchivePlanView, stamp: Option<Seq<char>>) -> ArchiveMoveView {
    ArchiveMoveView {
        slug: a.slug,
        from: a.skill_dir,
        to: match stamp {
            Some(stamp) => join(a.archive_dir, stamped(a.slug, stamp)),
            None => a.target,
        },
    }
}

/// What is answered once the skill is moved.
pub open spec fn archive_result(a: ArchiveMoveView) -> ToolResultView {
    success("Archived skill '"@ + a.slug + "' to "@ + a.to)
}

impl ArchiveLookup {
    /// Goes on with whether the skill's directory is there.
    pub fn found(self, present: bool) -> (out: Step<ArchivePlan>)
        ensures
            out@ == archive_found(self@, present),
    {
        if !present {
            return Step::Done(ToolResult::refused(not_found_text(self.slug.as_str())));
        }
        let target = join_path(self.archive_dir.as_str(), self.slug.as_str());
        Step::Next(
            ArchivePlan {
                slug: self.slug,
                skill_dir: self.skill_dir,
                archive_dir: self.archive_dir,
                target,
            },
        )
    }
}

impl ArchivePlan {
    /// The move to carry out, with a stamp behind the name where one is
    /// given.
    pub fn place_with(self, stamp: Option<String>) -> (out: ArchiveMove)
        ensures
            out@ == archive_placed(self@, opt_text(stamp)),
    {
        let to: String = match stamp {
            Some(stamp) => {
                let mut name = self.slug.clone();
                name.append("-");
                name.append(stamp.as_str());
                join_path(self.archive_dir.as_str(), name.as_str())
            },
            None => self.target,
        };
        ArchiveMove { slug: self.slug, from: self.skill_dir, to }
    }

    /// The move to carry out where it is known whether the target is taken,
    /// at a time given in seconds since the start of 1970. There is none only
    /// where the target is taken and the time has no date.
    pub fn place(self, taken: bool, now: i64) -> (out: Option<ArchiveMove>)
        ensures
            match out {
                Some(m) => if taken {
                    stamp_at(now, STAMP_FORMAT@) is Some && m@ == archive_placed(
                        self@,
                        stamp_at(now, STAMP_FORMAT@),
                    )
                } else {
                    m@ == archive_placed(self@, None)
                },
                None => taken && stamp_at(now, STAMP_FORMAT@) is None,
            },
            taken && out is Some ==> stamp_chars(stamp_at(now, STAMP_FORMAT@)->0),
            0 <= now <= 253_402_300_799 ==> out is Some,
            taken && 0 <= now <= 253_402_300_799 ==> stamp_shape(stamp_at(now, STAMP_FORMAT@)->0),
    {
        if !taken {
            return Some(self.place_with(None));
        }
        match utc_stamp(now, STAMP_FORMAT) {
            Some(stamp) => Some(self.place_with(Some(stamp))),
            None => None,
        }
    }
}

impl ArchiveMove {
    /// The answer, once the skill is moved.
    pub fn finish(&self) -> (out: ToolResult)
        ensures
            out@ == archive_result(self@),
    {
        let mut output = "Archived skill '".to_owned();
        output.append(self.slug.as_str());
        output.append("' to ");
        output.append(self.to.as_str());
        ToolResult::done(output)
    }
}

// ---------------------------------------------------------------------------
// The tool
// ---------------------------------------------------------------------------

/// Where a call stands at its beginning.
#[derive(Debug)]
pub enum ManageStep {
    Done(ToolResult),
    Patch(PatchLookup),
    WriteFile(WriteLookup),
    Archive(ArchiveLookup),
}

/// Where a call stands at its beginning, with texts as sequences.
pub enum ManageStepView {
    Done(ToolResultView),
    Patch(PatchLookupView),
    WriteFile(WriteLookupView),
    Archive(ArchiveLookupView),
}

impl View for ManageStep {
    type V = ManageStepView;

    open spec fn view(&self) -> ManageStepView {
        match *self {
            ManageStep::Done(r) => ManageStepView::Done(r@),
            ManageStep::Patch(p) => ManageStepView::Patch(p@),
            ManageStep::WriteFile(w) => ManageStepView::WriteFile(w@),
            ManageStep::Archive(a) => ManageStepView::Archive(a@),
        }
    }
}

/// What is answered to an action that there is not.
pub open spec fn unknown_action(action: Seq<char>) -> Seq<char> {
    "Unknown action '"@ + action + "'. Valid: patch, write_file, archive"@
}

/// Where a call for `action` on the skill `slug` stands at its beginning.
pub open spec fn manage_step(
    workspace: Seq<char>,
    cooldown_secs: u64,
    action: Seq<char>,
    slug: Seq<char>,
    args: JsonView,
) -> ManageStepView {
    if action == "patch"@ {
        match patch_step(workspace, cooldown_secs, slug, args) {
            StepView::Done(r) => ManageStepView::Done(r),
            StepView::Next(p) => ManageStepView::Patch(p),
        }
    } else if action == "write_file"@ {
        match write_step(workspace, slug, args) {
            StepView::Done(r) => ManageStepView::Done(r),
            StepView::Next(w) => ManageStepView::WriteFile(w),
        }
    } else if action == "archive"@ {
        match archive_step(workspace, slug) {
            StepView::Done(r) => ManageStepView::Done(r),
            StepView::Next(a) => ManageStepView::Archive(a),
        }
    } else {
        ManageStepView::Done(refusal(unknown_action(action)))
    }
}

/// Where a call with these arguments stands at its beginning.
pub open spec fn managed(workspace: Seq<char>, cooldown_secs: u64, args: JsonView) -> Result<
    ManageStepView,
    ToolError,
> {
    match (args.text_member("action"@), args.text_member("slug"@)) {
        (None, _) => Err(ToolError::MissingAction),
        (_, None) => Err(ToolError::MissingSlug),
        (Some(action), Some(slug)) => Ok(
            manage_step(workspace, cooldown_secs, action, slug, args),
        ),
    }
}

/// Changes installed skills.
#[derive(Debug)]
pub struct SkillManageTool {
    workspace_dir: String,
    improvement_config: SkillImprovementConfig,
}

impl SkillManageTool {
    /// The workspace whose skills are changed.
    pub closed spec fn workspace(&self) -> Seq<char> {
        self.workspace_dir@
    }

    /// When skills may be rewritten.
    pub closed spec fn config(&self) -> SkillImprovementConfig {
        self.improvement_config
    }

    /// The tool for the skills of a workspace.
    pub fn new(workspace_dir: String, improvement_config: SkillImprovementConfig) -> (out: Self)
        ensures
            out.workspace() == workspace_dir@,
            out.config() == improvement_config,
    {
        SkillManageTool { workspace_dir, improvement_config }
    }

    /// When skills may be rewritten.
    pub fn improvement_config(&self) -> (out: SkillImprovementConfig)
        ensures
            out == self.config(),
    {
        self.improvement_config
    }

    /// The name that the tool is called by.
    pub fn name(&self) -> (out: &'static str)
        ensures
            out@ == "skill_manage"@,
    {
        "skill_manage"
    }

    /// What the tool says of itself.
    pub fn description(&self) -> (out: &'static str)
        ensures
            out@
                == "Mutating operations on installed skills. Actions: `patch` (atomically rewrite SKILL.md — supply the full new file content; the YAML front-matter must have a `name` field), `write_file` (add a file under references/, templates/, or scripts/), `archive` (move to .archive/). All writes go through atomic temp-rename and validation where applicable."@,
    {
        "Mutating operations on installed skills. Actions: `patch` (atomically rewrite SKILL.md — supply the full new file content; the YAML front-matter must have a `name` field), `write_file` (add a file under references/, templates/, or scripts/), `archive` (move to .archive/). All writes go through atomic temp-rename and validation where applicable."
    }

    /// A text property of the schema.
    pub open spec fn text_property(description: Seq<char>) -> JsonView {
        JsonView::Object(
            seq![
                ("type"@, JsonView::Text("string"@)),
                ("description"@, JsonView::Text(description)),
            ],
        )
    }

    /// The property of the schema for the action.
    pub open spec fn action_property() -> JsonView {
        JsonView::Object(
            seq![
                ("type"@, JsonView::Text("string"@)),
                (
                    "enum"@,
                    JsonView::Array(
                        seq![
                            JsonView::Text("patch"@),
                            JsonView::Text("write_file"@),
                            JsonView::Text("archive"@),
                        ],
                    ),
                ),
                ("description"@, JsonView::Text("Which mutation to perform."@)),
            ],
        )
    }

    /// The properties of the schema.
    pub open spec fn properties() -> Seq<(Seq<char>, JsonView)> {
        seq![
            ("action"@, Self::action_property()),
            ("slug"@, Self::text_property("Skill slug to operate on."@)),
            (
                "content"@,
                Self::text_property(
                    "For `patch`: new SKILL.md body (YAML front-matter + Markdown). For `write_file`: file contents."@,
                ),
            ),
            (
                "file_path"@,
                Self::text_property(
                    "For `write_file` only: relative path starting with `references/`, `templates/`, or `scripts/`."@,
                ),
            ),
            (
                "reason"@,
                Self::text_property(
                    "Short human-readable reason recorded in the skill's audit trail."@,
                ),
            ),
        ]
    }

    /// The schema of the tool's arguments: an action, a slug, and what the
    /// action takes.
    pub open spec fn schema() -> JsonView {
        JsonView::Object(
            seq![
                ("type"@, JsonView::Text("object"@)),
                ("properties"@, JsonView::Object(Self::properties())),
                (
                    "required"@,
                    JsonView::Array(seq![JsonView::Text("action"@), JsonView::Text("slug"@)]),
                ),
                ("additionalProperties"@, JsonView::Bool(false)),
            ],
        )
    }

    fn push_text_property(members: &mut Vec<(String, Json)>, key: &str, description: &str)
        ensures
            members_view(final(members)@) == members_view(old(members)@).push(
                (key@, Self::text_property(description@)),
            ),
    {
        let mut property: Vec<(String, Json)> = Vec::new();
        push_text(&mut property, "type", "string");
        push_text(&mut property, "description", description);
        proof {
            assert(members_view(property@) =~= Self::text_property(description@)->Object_0);
        }
        push_member(members, key, object_value(property));
    }

    /// The schema of the tool's arguments.
    pub fn parameters_schema(&self) -> (out: Json)
        ensures
            out@ == Self::schema(),
    {
        let mut actions: Vec<Json> = Vec::new();
        actions.push(text_value("patch"));
        actions.push(text_value("write_file"));
        actions.push(text_value("archive"));
        let mut action: Vec<(String, Json)> = Vec::new();
        push_text(&mut action, "type", "string");
        push_member(&mut action, "enum", array_value(actions));
        push_text(&mut action, "description", "Which mutation to perform.");
        proof {
            let want = Self::action_property()->Object_0;
            assert(items_view(actions@) =~= want[1].1->Array_0);
            assert(members_view(action@) =~= want);
        }
        let mut properties: Vec<(String, Json)> = Vec::new();
        push_member(&mut properties, "action", object_value(action));
        Self::push_text_property(&mut properties, "slug", "Skill slug to operate on.");
        Self::push_text_property(
            &mut properties,
            "content",
            "For `patch`: new SKILL.md body (YAML front-matter + Markdown). For `write_file`: file contents.",
        );
        Self::push_text_property(
            &mut properties,
            "file_path",
            "For `write_file` only: relative path starting with `references/`, `templates/`, or `scripts/`.",
        );
        Self::push_text_property(
            &mut properties,
            "reason",
            "Short human-readable reason recorded in the skill's audit trail.",
        );
        proof {
            assert(members_view(properties@) =~= Self::properties());
        }
        let mut required: Vec<Json> = Vec::new();
        required.push(text_value("action"));
        required.push(text_value("slug"));
        let mut schema: Vec<(String, Json)> = Vec::new();
        push_text(&mut schema, "type", "object");
        push_member(&mut schema, "properties", object_value(properties));
        push_member(&mut schema, "required", array_value(required));
        push_member(&mut schema, "additionalProperties", Json::Bool(false));
        proof {
            let want = Self::schema()->Object_0;
            assert(items_view(required@) =~= want[2].1->Array_0);
            assert(members_view(schema@) =~= want);
        }
        object_value(schema)
    }

    /// Begins a patch of the skill `slug`.
    pub fn patch(&self, slug: &str, args: &Json) -> (out: Step<PatchLookup>)
        ensures
            out@ == patch_step(self.workspace(), self.config().cooldown_secs, slug@, args@),
    {
        let skill_dir: String = match resolve_skill_dir(self.workspace_dir.as_str(), slug) {
            Ok(dir) => dir,
            Err(e) => return Step::Done(ToolResult::refused(e)),
        };
        let reason: String = match args.get_text("reason") {
            Some(reason) => reason,
            None => "Skill review".to_owned(),
        };
        Step::Next(
            PatchLookup {
                slug: slug.to_owned(),
                skill_md: join_path(skill_dir.as_str(), "SKILL.md"),
                content: args.get_text("content"),
                reason,
                cooldown_secs: self.improvement_config.cooldown_secs,
            },
        )
    }

    /// Begins to add a support file to the skill `slug`.
    pub fn write_file(&self, slug: &str, args: &Json) -> (out: Step<WriteLookup>)
        ensures
            out@ == write_step(self.workspace(), slug@, args@),
    {
        match resolve_skill_dir(self.workspace_dir.as_str(), slug) {
            Ok(skill_dir) => Step::Next(
                WriteLookup {
                    slug: slug.to_owned(),
                    skill_dir,
                    file_path: args.get_text("file_path"),
                    content: args.get_text("content"),
                },
            ),
            Err(e) => Step::Done(ToolResult::refused(e)),
        }
    }

    /// Begins to move the skill `slug` to the archive.
    pub fn archive(&self, slug: &str) -> (out: Step<ArchiveLookup>)
        ensures
            out@ == archive_step(self.workspace(), slug@),
    {
        match resolve_skill_dir(self.workspace_dir.as_str(), slug) {
            Ok(skill_dir) => {
                let root = skills_root(self.workspace_dir.as_str());
                let archive_dir = join_path(root.as_str(), ARCHIVE_DIRNAME);
                Step::Next(ArchiveLookup { slug: slug.to_owned(), skill_dir, archive_dir })
            },
            Err(e) => Step::Done(ToolResult::refused(e)),
        }
    }

    /// Begins a call: an error where the arguments name no action or no
    /// skill.
    pub fn execute(&self, args: &Json) -> (out: Result<ManageStep, ToolError>)
        ensures
            match out {
                Ok(step) => managed(self.workspace(), self.config().cooldown_secs, args@) == Ok::<
                    ManageStepView,
                    ToolError,
                >(step@),
                Err(e) => managed(self.workspace(), self.config().cooldown_secs, args@) == Err::<
                    ManageStepView,
                    ToolError,
                >(e),
            },
    {
        let action: String = match args.get_text("action") {
            Some(action) => action,
            None => return Err(ToolError::MissingAction),
        };
        let slug: String = match args.get_text("slug") {
            Some(slug) => slug,
            None => return Err(ToolError::MissingSlug),
        };
        if same_text(action.as_str(), "patch") {
            match self.patch(slug.as_str(), args) {
                Step::Done(r) => Ok(ManageStep::Done(r)),
                Step::Next(p) => Ok(ManageStep::Patch(p)),
            }
        } else if same_text(action.as_str(), "write_file") {
            match self.write_file(slug.as_str(), args) {
                Step::Done(r) => Ok(ManageStep::Done(r)),
                Step::Next(w) => Ok(ManageStep::WriteFile(w)),
            }
        } else if same_text(action.as_str(), "archive") {
            match self.archive(slug.as_str()) {
                Step::Done(r) => Ok(ManageStep::Done(r)),
                Step::Next(a) => Ok(ManageStep::Archive(a)),
            }
        } else {
            let mut error = "Unknown action '".to_owned();
            error.append(action.as_str());
            error.append("'. Valid: patch, write_file, archive");
            Ok(ManageStep::Done(ToolResult::refused(error)))
        }
    }
}

} // verus!
