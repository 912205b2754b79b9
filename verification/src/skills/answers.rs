//! What the skill tools take and what they answer, said of what they are
//! given.

use vstd::prelude::*;
#[allow(unused_imports)]
use vstd::utf8::encode_utf8;

#[allow(unused_imports)]
use super::dirs::{bad_slug, dir_of, root_of, valid_slug};
#[allow(unused_imports)]
use super::front::{front_matter, value_of};
#[allow(unused_imports)]
use super::list::{
    installed, list_result, list_text, row_text, rows_text, skill_in, skills_in, slugs,
    DirEntryView, DirListingView, SkillRowView,
};
#[allow(unused_imports)]
use super::manage::{
    archive_found, archive_of, archive_placed, archive_result, archive_step, managed, patch_found,
    patch_gated, patch_result, patch_step, write_found, write_placed, write_result, write_step,
    ManageStepView, PatchLookupView, SkillManageTool, TargetFormView, WriteLookupView,
    WriteTargetView,
};
#[allow(unused_imports)]
use super::tool::{success, StepView, ToolError, ToolResultView};
#[allow(unused_imports)]
use super::view::{
    found_files, law_every_support_file_is_listed, page, parts, preview, support_files, under,
    view_step, SkillViewTool, SupportNamesView,
};
#[allow(unused_imports)]
use crate::json::{holds, lemma_holds, JsonView};
#[allow(unused_imports)]
use crate::order::{
    lemma_arranged_has_same_items, lemma_sort_order_exists, law_sort_order_is_sorted, sorted_order,
    text_le,
};
#[allow(unused_imports)]
use crate::path::{components, join};
#[allow(unused_imports)]
use crate::text::{decimal, occurs, occurs_at};

verus! {

/// The call did what it was asked to and says `output`.
pub open spec fn says_done(r: ToolResultView, output: Seq<char>) -> bool {
    r.success && r.output == output && r.error is None
}

/// The call did not do what it was asked to and says why.
pub open spec fn says_no(r: ToolResultView, error: Seq<char>) -> bool {
    !r.success && r.output.len() == 0 && r.error == Some(error)
}

/// Two dots stand next to each other.
pub open spec fn has_two_dots(s: Seq<char>) -> bool {
    exists|i: int| 0 <= i < s.len() - 1 && #[trigger] s[i] == '.' && s[i + 1] == '.'
}

proof fn lemma_two_dots(s: Seq<char>)
    ensures
        has_two_dots(s) <==> occurs(s, ".."@),
{
    reveal_strlit("..");
    assert(".."@ =~= seq!['.', '.']);
    if has_two_dots(s) {
        let i = choose|i: int| 0 <= i < s.len() - 1 && #[trigger] s[i] == '.' && s[i + 1] == '.';
        assert(s.subrange(i, i + 2) =~= ".."@);
        assert(occurs_at(s, ".."@, i));
    }
    if occurs(s, ".."@) {
        let i = choose|i: int| occurs_at(s, ".."@, i);
        assert(s.subrange(i, i + 2)[0] == '.' && s.subrange(i, i + 2)[1] == '.');
        assert(s[i] == '.' && s[i + 1] == '.');
    }
}

// ---------------------------------------------------------------------------
// Slugs
// ---------------------------------------------------------------------------

/// A slug can name a skill exactly where it is not empty, does not begin with
/// a dot, and holds no slash, no backslash and no two dots in a row.
pub proof fn law_slugs_that_name_a_skill(slug: Seq<char>)
    ensures
        valid_slug(slug) <==> {
            &&& slug.len() > 0
            &&& slug[0] != '.'
            &&& forall|i: int| 0 <= i < slug.len() ==> #[trigger] slug[i] != '/' && slug[i] != '\\'
            &&& !has_two_dots(slug)
        },
{
    lemma_two_dots(slug);
    if forall|i: int| 0 <= i < slug.len() ==> #[trigger] slug[i] != '/' && slug[i] != '\\' {
        assert(!slug.contains('/') && !slug.contains('\\'));
    } else {
        let i = choose|i: int|
            0 <= i < slug.len() && !(#[trigger] slug[i] != '/' && slug[i] != '\\');
        assert(slug.contains(slug[i]));
    }
}

/// Where a skill lives, and what is said where the slug names none.
pub proof fn law_skill_place_and_refusal(workspace: Seq<char>, slug: Seq<char>)
    requires
        workspace.len() > 0,
        workspace.last() != '/',
    ensures
        bad_slug(slug) == "Invalid skill slug: "@ + slug,
        valid_slug(slug) ==> dir_of(workspace, slug) == workspace + "/skills/"@ + slug,
        archive_of(workspace) == workspace + "/skills/.archive"@,
        root_of(workspace) == workspace + "/skills"@,
{
    reveal_strlit("skills");
    reveal_strlit("/skills");
    reveal_strlit("/skills/");
    reveal_strlit(".archive");
    reveal_strlit("/skills/.archive");
    assert(root_of(workspace) =~= workspace + "/skills"@);
    assert("skills"@[5] == 's');
    assert(root_of(workspace).last() == 's');
    if valid_slug(slug) {
        assert(slug.contains(slug[0]));
        assert(dir_of(workspace, slug) =~= workspace + "/skills/"@ + slug);
    }
    assert(archive_of(workspace) =~= workspace + "/skills/.archive"@);
}

// ---------------------------------------------------------------------------
// Showing a skill
// ---------------------------------------------------------------------------

/// The support files of a skill are those under `references/`, those under
/// `templates/` and those under `scripts/`, each once, and no other.
pub proof fn law_listed_support_files(names: SupportNamesView, file: Seq<char>)
    requires
        names.references.len() + names.templates.len() + names.scripts.len() <= usize::MAX,
    ensures
        support_files(names).len() == names.references.len() + names.templates.len()
            + names.scripts.len(),
        support_files(names).contains(file) <==> {
            ||| exists|i: int|
                0 <= i < names.references.len() && file == "references/"@
                    + #[trigger] names.references[i]
            ||| exists|i: int|
                0 <= i < names.templates.len() && file == "templates/"@
                    + #[trigger] names.templates[i]
            ||| exists|i: int|
                0 <= i < names.scripts.len() && file == "scripts/"@ + #[trigger] names.scripts[i]
        },
{
    law_every_support_file_is_listed(names, file);
    let all = found_files(names);
    let r = names.references.len() as int;
    let t = names.templates.len() as int;
    if all.contains(file) {
        let k = choose|k: int| 0 <= k < all.len() && all[k] == file;
        if k < r {
            assert(file == "references/"@ + names.references[k]);
        } else if k < r + t {
            assert(file == "templates/"@ + names.templates[k - r]);
        } else {
            assert(file == "scripts/"@ + names.scripts[k - r - t]);
        }
    }
    if exists|i: int|
        0 <= i < names.references.len() && file == "references/"@ + #[trigger] names.references[i] {
        let i = choose|i: int|
            0 <= i < names.references.len() && file == "references/"@
                + #[trigger] names.references[i];
        assert(all[i] == file);
    }
    if exists|i: int|
        0 <= i < names.templates.len() && file == "templates/"@ + #[trigger] names.templates[i] {
        let i = choose|i: int|
            0 <= i < names.templates.len() && file == "templates/"@ + #[trigger] names.templates[i];
        assert(all[r + i] == file);
    }
    if exists|i: int|
        0 <= i < names.scripts.len() && file == "scripts/"@ + #[trigger] names.scripts[i] {
        let i = choose|i: int|
            0 <= i < names.scripts.len() && file == "scripts/"@ + #[trigger] names.scripts[i];
        assert(all[r + t + i] == file);
    }
}

/// What a request for a skill reads, and what it is answered where the slug
/// names none.
pub proof fn law_view_reads_the_skill(workspace: Seq<char>, slug: Seq<char>)
    ensures
        match view_step(workspace, slug) {
            StepView::Next(lookup) => {
                &&& valid_slug(slug)
                &&& lookup.slug == slug
                &&& lookup.skill_dir == dir_of(workspace, slug)
                &&& lookup.skill_md == join(dir_of(workspace, slug), "SKILL.md"@)
            },
            StepView::Done(r) => !valid_slug(slug) && says_no(r, "Invalid skill slug: "@ + slug),
        },
{
}

/// The page of a skill begins with its slug and its front matter; the body
/// follows where it is more than white space, and then the support files, one
/// a line, where there are any.
pub proof fn law_page_is_laid_out(
    slug: Seq<char>,
    md: Seq<char>,
    files: Seq<Seq<char>>,
    file: Seq<char>,
)
    ensures
        ({
            let front = parts(md).0;
            let body = parts(md).1;
            let top = "# Skill '"@ + slug + "'\n\n## Front-matter\n\n```yaml\n"@ + front
                + "\n```\n"@;
            let shown = "\n## Body (Markdown)\n\n"@ + preview(body) + "\n"@;
            let blank = crate::text::trim(body).len() == 0;
            &&& blank ==> page(slug, md, Seq::empty()) == top
            &&& !blank ==> page(slug, md, Seq::empty()) == top + shown
            &&& page(slug, md, seq![file]) == page(slug, md, Seq::empty())
                + "\n## Support files\n"@ + ("- "@ + file + "\n"@)
            &&& files.len() > 0 ==> page(slug, md, files.push(file)) == page(slug, md, files) + (
            "- "@ + file + "\n"@)
        }),
{
    assert(files.push(file).drop_last() =~= files);
    assert(seq![file].drop_last() =~= Seq::<Seq<char>>::empty());
    let none = Seq::<Seq<char>>::empty();
    let line = "- "@ + file + "\n"@;
    assert(super::view::files_text(none) =~= Seq::<char>::empty());
    assert(super::view::files_text(seq![file]) =~= line);
    assert(super::view::files_text(files.push(file)) == super::view::files_text(files) + line);
    if files.len() > 0 {
        assert(page(slug, md, files.push(file)) =~= page(slug, md, files) + line);
    }
}

/// The front matter and the body of a document; where it has no front matter,
/// all of it is body.
pub proof fn law_document_without_front_matter_is_body(md: Seq<char>)
    ensures
        match front_matter(md) {
            Some(p) => parts(md).0 == p.0 && parts(md).1 == p.1,
            None => parts(md).0.len() == 0 && parts(md).1 == md,
        },
{
}

/// A body that fits is shown whole; a longer one with a note that says how long
/// it is.
pub proof fn law_preview_of_short_and_long_bodies(body: Seq<char>)
    ensures
        encode_utf8(body).len() <= 2_000 ==> preview(body) == body,
        encode_utf8(body).len() > 2_000 ==> preview(body) == super::view::beginning(body)
            + "…\n[truncated; full body is "@ + decimal(encode_utf8(body).len()) + " bytes]"@,
{
}

// ---------------------------------------------------------------------------
// Adding a support file
// ---------------------------------------------------------------------------

/// The path of a support file that can be taken: below one of the three
/// directories, without two dots in a row and without a NUL.
pub open spec fn takes_path(path: Seq<char>) -> bool {
    &&& "references/"@.is_prefix_of(path) || "templates/"@.is_prefix_of(path)
        || "scripts/"@.is_prefix_of(path)
    &&& !has_two_dots(path)
    &&& forall|i: int| 0 <= i < path.len() ==> #[trigger] path[i] != '\0'
}

/// A support file of a skill that is there is taken exactly where its path lies
/// below one of the three directories and holds neither two dots in a row nor a
/// NUL, and its content is no larger than 262144 bytes; then it is put under
/// that path in the skill's directory. Otherwise the answer says which of these
/// is not so.
pub proof fn law_support_file_is_taken(w: WriteLookupView, path: Seq<char>, content: Seq<char>)
    requires
        w.file_path == Some(path),
        w.content == Some(content),
    ensures
        match write_found(w, true) {
            Ok(StepView::Next(target)) => {
                &&& takes_path(path)
                &&& encode_utf8(content).len() <= 262_144
                &&& target.slug == w.slug
                &&& target.skill_dir == w.skill_dir
                &&& target.file_path == path
                &&& target.content == content
                &&& target.target == join(w.skill_dir, path)
            },
            Ok(StepView::Done(r)) => {
                &&& !takes_path(path) || encode_utf8(content).len() > 262_144
                &&& if !("references/"@.is_prefix_of(path) || "templates/"@.is_prefix_of(path)
                    || "scripts/"@.is_prefix_of(path)) {
                    says_no(
                        r,
                        "file_path must start with one of: references/, templates/, scripts/"@,
                    )
                } else if !takes_path(path) {
                    says_no(r, "file_path contains forbidden segment"@)
                } else {
                    says_no(
                        r,
                        "content exceeds 262144 bytes ("@ + decimal(encode_utf8(content).len())
                            + " given)"@,
                    )
                }
            },
            Err(_) => false,
        },
{
    lemma_two_dots(path);
    if path.contains('\0') {
        let i = choose|i: int| 0 <= i < path.len() && path[i] == '\0';
        assert(path[i] == '\0');
    } else {
        assert forall|i: int| 0 <= i < path.len() implies #[trigger] path[i] != '\0' by {
            assert(path.contains(path[i]));
        }
    }
}

/// A support file needs a skill that is there, a path and content, and what is
/// missing is told in this order.
pub proof fn law_support_file_needs(w: WriteLookupView)
    ensures
        match write_found(w, false) {
            Ok(StepView::Done(r)) => says_no(r, "Skill '"@ + w.slug + "' not found"@),
            _ => false,
        },
        w.file_path is None ==> write_found(w, true) is Err && write_found(w, true)->Err_0
            is WriteWithoutPath,
        w.file_path is Some && w.content is None ==> write_found(w, true) is Err && write_found(
            w,
            true,
        )->Err_0 is WriteWithoutContent,
        w.file_path is Some && w.content is Some ==> write_found(w, true) is Ok,
{
}

/// What is asked of the place of a support file leaves the file as it was
/// given.
pub proof fn law_placed_file_is_the_one_given(
    w: WriteTargetView,
    skill_dir: Option<Seq<char>>,
    parent: Option<Seq<char>>,
    form: TargetFormView,
)
    ensures
        ({
            let base = if skill_dir is Some {
                skill_dir->0
            } else {
                w.skill_dir
            };
            let above = if parent is Some {
                parent->0
            } else {
                w.skill_dir
            };
            let stays = components(base).is_prefix_of(components(above)) && !(form is Dangling) && (
            form is At ==> components(base).is_prefix_of(components(form->At_0)));
            match write_placed(w, skill_dir, parent, form) {
                StepView::Next(ready) => {
                    &&& stays
                    &&& ready.slug == w.slug
                    &&& ready.file_path == w.file_path
                    &&& ready.target == w.target
                    &&& ready.content == w.content
                    &&& says_done(
                        write_result(ready),
                        "Wrote "@ + w.file_path + " for skill '"@ + w.slug + "'."@,
                    )
                },
                StepView::Done(r) => !stays && says_no(r, "file_path escapes skill directory"@),
            }
        }),
{
}

/// What a new support file begins with: the skill's directory and the path and
/// the content that the arguments give.
pub proof fn law_write_takes_its_arguments(
    workspace: Seq<char>,
    slug: Seq<char>,
    args: JsonView,
    text: Seq<char>,
)
    ensures
        match write_step(workspace, slug, args) {
            StepView::Next(w) => {
                &&& valid_slug(slug)
                &&& w.slug == slug
                &&& w.skill_dir == dir_of(workspace, slug)
                &&& w.file_path == Some(text) <==> holds(
                    args,
                    "file_path"@,
                    JsonView::Text(text),
                )
                &&& w.content == Some(text) <==> holds(args, "content"@, JsonView::Text(text))
            },
            StepView::Done(r) => !valid_slug(slug) && says_no(r, "Invalid skill slug: "@ + slug),
        },
{
    lemma_holds(args, "file_path"@);
    lemma_holds(args, "content"@);
}

// ---------------------------------------------------------------------------
// Patching
// ---------------------------------------------------------------------------

/// What a patch begins with: the skill's `SKILL.md`, and the content and the
/// reason that the arguments give. A patch without a reason is a review.
pub proof fn law_patch_takes_its_arguments(
    workspace: Seq<char>,
    cooldown_secs: u64,
    slug: Seq<char>,
    args: JsonView,
    text: Seq<char>,
)
    ensures
        match patch_step(workspace, cooldown_secs, slug, args) {
            StepView::Next(p) => {
                &&& valid_slug(slug)
                &&& p.slug == slug
                &&& p.skill_md == join(dir_of(workspace, slug), "SKILL.md"@)
                &&& p.content == Some(text) <==> holds(args, "content"@, JsonView::Text(text))
                &&& holds(args, "reason"@, JsonView::Text(text)) ==> p.reason == text
                &&& (forall|t: Seq<char>| !#[trigger] holds(args, "reason"@, JsonView::Text(t)))
                    ==> p.reason == "Skill review"@
                &&& p.cooldown_secs == cooldown_secs
            },
            StepView::Done(r) => !valid_slug(slug) && says_no(r, "Invalid skill slug: "@ + slug),
        },
{
    lemma_holds(args, "content"@);
    lemma_holds(args, "reason"@);
    if let Some(t) = args.text_member("reason"@) {
        assert(holds(args, "reason"@, JsonView::Text(t)));
    }
}

/// A patch goes through its steps with the slug, the content and the reason
/// that it began with, and each answer says what became of it.
pub proof fn law_patch_keeps_what_it_was_given(
    p: PatchLookupView,
    present: bool,
    eligible: bool,
    failure: Seq<char>,
)
    ensures
        match patch_found(p, present) {
            Ok(StepView::Done(r)) => !present && says_no(
                r,
                "Skill '"@ + p.slug + "' not found (no SKILL.md)"@,
            ),
            Ok(StepView::Next(gate)) => present && p.content is Some && match patch_gated(
                gate,
                eligible,
            ) {
                StepView::Next(write) => {
                    &&& eligible
                    &&& write.slug == p.slug
                    &&& write.content == p.content->0
                    &&& write.reason == p.reason
                },
                StepView::Done(r) => !eligible && says_no(
                    r,
                    "Skill '"@ + p.slug + "' is on cooldown ("@ + decimal(p.cooldown_secs as nat)
                        + "s window since last update). Try a different skill, add a `references/` file, or emit 'Nothing to save.' if there is no other signal worth keeping."@,
                ),
            },
            Err(e) => present && p.content is None && e is PatchWithoutContent,
        },
        says_done(patch_result(p.slug, None), "Patched skill '"@ + p.slug + "'."@),
        says_no(patch_result(p.slug, Some(failure)), "Patch failed: "@ + failure),
{
}

// ---------------------------------------------------------------------------
// Archiving
// ---------------------------------------------------------------------------

/// A skill that is there is moved from its directory into the archive, under
/// its slug, or under its slug with a dash and a stamp behind it.
pub proof fn law_archive_moves_the_skill(
    workspace: Seq<char>,
    slug: Seq<char>,
    present: bool,
    stamp: Seq<char>,
)
    ensures
        match archive_step(workspace, slug) {
            StepView::Done(r) => !valid_slug(slug) && says_no(r, "Invalid skill slug: "@ + slug),
            StepView::Next(lookup) => valid_slug(slug) && match archive_found(lookup, present) {
                StepView::Done(r) => !present && says_no(r, "Skill '"@ + slug + "' not found"@),
                StepView::Next(plan) => {
                    let plain = archive_placed(plan, None);
                    let other = archive_placed(plan, Some(stamp));
                    &&& present
                    &&& plan.archive_dir == archive_of(workspace)
                    &&& plan.target == join(archive_of(workspace), slug)
                    &&& plain.from == dir_of(workspace, slug)
                    &&& other.from == dir_of(workspace, slug)
                    &&& plain.to == join(archive_of(workspace), slug)
                    &&& other.to == join(archive_of(workspace), slug + "-"@ + stamp)
                    &&& says_done(
                        archive_result(plain),
                        "Archived skill '"@ + slug + "' to "@ + plain.to,
                    )
                    &&& says_done(
                        archive_result(other),
                        "Archived skill '"@ + slug + "' to "@ + other.to,
                    )
                },
            },
        },
{
}

// ---------------------------------------------------------------------------
// Choosing the action
// ---------------------------------------------------------------------------

/// A call does what its `action` names to the skill that its `slug` names;
/// what is missing, and what it does not know, it tells.
pub proof fn law_action_is_the_one_named(
    workspace: Seq<char>,
    cooldown_secs: u64,
    args: JsonView,
    action: Seq<char>,
    slug: Seq<char>,
)
    ensures
        (forall|a: Seq<char>| !#[trigger] holds(args, "action"@, JsonView::Text(a))) ==> managed(
            workspace,
            cooldown_secs,
            args,
        ) is Err && managed(workspace, cooldown_secs, args)->Err_0 is MissingAction,
        holds(args, "action"@, JsonView::Text(action)) && (forall|s: Seq<char>|
            !#[trigger] holds(args, "slug"@, JsonView::Text(s))) ==> managed(
            workspace,
            cooldown_secs,
            args,
        ) is Err && managed(workspace, cooldown_secs, args)->Err_0 is MissingSlug,
        holds(args, "action"@, JsonView::Text(action)) && holds(
            args,
            "slug"@,
            JsonView::Text(slug),
        ) ==> match managed(workspace, cooldown_secs, args) {
            Ok(ManageStepView::Patch(p)) => {
                &&& action == "patch"@
                &&& patch_step(workspace, cooldown_secs, slug, args) == StepView::Next(p)
            },
            Ok(ManageStepView::WriteFile(w)) => {
                &&& action == "write_file"@
                &&& write_step(workspace, slug, args) == StepView::Next(w)
            },
            Ok(ManageStepView::Archive(a)) => {
                &&& action == "archive"@
                &&& archive_step(workspace, slug) == StepView::Next(a)
            },
            Ok(ManageStepView::Done(r)) => {
                if action == "patch"@ || action == "write_file"@ || action == "archive"@ {
                    !valid_slug(slug) && says_no(r, "Invalid skill slug: "@ + slug)
                } else {
                    says_no(
                        r,
                        "Unknown action '"@ + action + "'. Valid: patch, write_file, archive"@,
                    )
                }
            },
            Err(_) => false,
        },
{
    lemma_holds(args, "action"@);
    lemma_holds(args, "slug"@);
    if let Some(a) = args.text_member("action"@) {
        assert(holds(args, "action"@, JsonView::Text(a)));
    }
    if let Some(s) = args.text_member("slug"@) {
        assert(holds(args, "slug"@, JsonView::Text(s)));
    }
}

/// Each error says what is missing.
pub proof fn law_errors_say_what_is_missing(e: ToolError)
    ensures
        match e {
            ToolError::MissingAction => e.text() == "missing `action` argument"@,
            ToolError::MissingSlug => e.text() == "missing `slug` argument"@,
            ToolError::PatchWithoutContent => e.text() == "`patch` requires `content`"@,
            ToolError::WriteWithoutPath => e.text() == "`write_file` requires `file_path`"@,
            ToolError::WriteWithoutContent => e.text() == "`write_file` requires `content`"@,
        },
{
}

// ---------------------------------------------------------------------------
// Listing skills
// ---------------------------------------------------------------------------

/// An entry of the skills directory is a skill exactly where its name does not
/// begin with a dot, it is a directory, and it holds a `SKILL.md` with front
/// matter; the front matter gives the name, the description and the version.
pub proof fn law_entry_is_a_skill_when(entry: DirEntryView)
    ensures
        skill_in(entry) is Some <==> {
            &&& entry.name.len() == 0 || entry.name[0] != '.'
            &&& entry.is_dir
            &&& entry.skill_md is Some
            &&& front_matter(entry.skill_md->0) is Some
        },
        skill_in(entry) is Some ==> {
            let row = skill_in(entry)->0;
            let found = front_matter(entry.skill_md->0)->0;
            let front = found.0;
            &&& row.slug == entry.name
            &&& value_of(front, "name"@) is Some ==> row.name == value_of(front, "name"@)->0
            &&& value_of(front, "name"@) is None ==> row.name.len() == 0
            &&& value_of(front, "description"@) is Some ==> row.description == value_of(
                front,
                "description"@,
            )->0
            &&& value_of(front, "description"@) is None ==> row.description.len() == 0
            &&& value_of(front, "version"@) is Some ==> row.version == value_of(
                front,
                "version"@,
            )->0
            &&& value_of(front, "version"@) is None ==> row.version == "0.0.0"@
        },
{
    reveal_strlit("");
}

/// The list holds every skill of the directory and nothing else, in the order
/// of the slugs.
pub proof fn law_installed_skills_are_listed(
    entries: Seq<DirEntryView>,
    row: SkillRowView,
    i: int,
    j: int,
)
    requires
        entries.len() <= usize::MAX,
    ensures
        installed(entries).contains(row) <==> exists|k: int|
            0 <= k < entries.len() && skill_in(#[trigger] entries[k]) == Some(row),
        0 <= i <= j < installed(entries).len() ==> text_le(
            installed(entries)[i].slug,
            installed(entries)[j].slug,
        ),
{
    let rows = skills_in(entries);
    let keys = slugs(rows);
    lemma_rows(entries, row);
    lemma_sort_order_exists(keys);
    lemma_arranged_has_same_items(rows, sorted_order(keys), keys, row);
    if 0 <= i <= j < installed(entries).len() {
        law_sort_order_is_sorted(sorted_order(keys), keys, i, j);
    }
}

proof fn lemma_rows(entries: Seq<DirEntryView>, row: SkillRowView)
    ensures
        skills_in(entries).contains(row) <==> exists|k: int|
            0 <= k < entries.len() && skill_in(#[trigger] entries[k]) == Some(row),
        skills_in(entries).len() <= entries.len(),
    decreases entries.len(),
{
    if entries.len() > 0 {
        let init = entries.drop_last();
        let rows = skills_in(entries);
        lemma_rows(init, row);
        if rows.contains(row) {
            let k = choose|k: int| 0 <= k < rows.len() && rows[k] == row;
            if k < skills_in(init).len() {
                assert(skills_in(init)[k] == row);
                let i = choose|i: int| 0 <= i < init.len() && skill_in(init[i]) == Some(row);
                assert(entries[i] == init[i]);
            } else {
                assert(skill_in(entries[entries.len() - 1]) == Some(row));
            }
        }
        if exists|k: int| 0 <= k < entries.len() && skill_in(#[trigger] entries[k]) == Some(row) {
            let i = choose|i: int| 0 <= i < entries.len() && skill_in(entries[i]) == Some(row);
            if i < init.len() {
                assert(init[i] == entries[i]);
                let k = choose|k: int| 0 <= k < skills_in(init).len() && skills_in(init)[k] == row;
                assert(rows[k] == row);
            } else {
                assert(rows.last() == row);
            }
        }
    }
}

/// Each skill counts for one line of the list, or two where it has a
/// description, and the list begins with how many there are.
pub proof fn law_list_is_laid_out(rows: Seq<SkillRowView>, row: SkillRowView)
    ensures
        list_text(Seq::empty()) == "0 installed skills."@,
        rows.len() > 0 ==> list_text(rows) == decimal(rows.len()) + " installed skills:\n\n"@
            + rows_text(rows),
        rows_text(rows.push(row)) == rows_text(rows) + row_text(row),
        rows_text(Seq::empty()).len() == 0,
        row.name.len() > 0 && row.description.len() > 0 ==> row_text(row) == "- "@ + row.name
            + " v"@ + row.version + " ("@ + row.slug + ")\n"@ + ("    "@ + row.description
            + "\n"@),
        row.name.len() > 0 && row.description.len() == 0 ==> row_text(row) == "- "@ + row.name
            + " v"@ + row.version + " ("@ + row.slug + ")\n"@,
        row.name.len() == 0 && row.description.len() > 0 ==> row_text(row) == "- "@ + row.slug
            + " v"@ + row.version + " ("@ + row.slug + ")\n"@ + ("    "@ + row.description
            + "\n"@),
        row.name.len() == 0 && row.description.len() == 0 ==> row_text(row) == "- "@ + row.slug
            + " v"@ + row.version + " ("@ + row.slug + ")\n"@,
{
    assert(rows.push(row).drop_last() =~= rows);
}

/// What the list answers: a directory that is missing has no skills, one that
/// cannot be read is told of.
pub proof fn law_list_answers(listing: DirListingView)
    ensures
        match listing {
            DirListingView::Missing => says_done(list_result(listing), "0 installed skills."@),
            DirListingView::Failed(e) => says_no(
                list_result(listing),
                "Failed to read skills directory: "@ + e,
            ),
            DirListingView::Entries(entries) => says_done(
                list_result(listing),
                list_text(installed(entries)),
            ),
        },
{
}

// ---------------------------------------------------------------------------
// Schemas
// ---------------------------------------------------------------------------

/// The schema of `skill_manage` asks for an action and a slug, offers the three
/// actions, and offers each argument that a call reads, as a text, and no other.
pub proof fn law_manage_schema_offers_what_is_read(i: int)
    ensures
        ({
            let top = SkillManageTool::schema()->Object_0;
            let offered = top[1].1->Object_0;
            let action = offered[0].1->Object_0;
            &&& SkillManageTool::schema() is Object
            &&& top.len() == 4
            &&& top[0] == ("type"@, JsonView::Text("object"@))
            &&& top[1].0 == "properties"@
            &&& top[1].1 is Object
            &&& top[2].0 == "required"@
            &&& top[2].1 is Array
            &&& top[2].1->Array_0 == seq![JsonView::Text("action"@), JsonView::Text("slug"@)]
            &&& top[3] == ("additionalProperties"@, JsonView::Bool(false))
            &&& offered.len() == 5
            &&& offered[0].0 == "action"@
            &&& offered[1].0 == "slug"@
            &&& offered[2].0 == "content"@
            &&& offered[3].0 == "file_path"@
            &&& offered[4].0 == "reason"@
            &&& 0 <= i < 5 ==> offered[i].1 is Object && offered[i].1->Object_0[0] == (
                "type"@,
                JsonView::Text("string"@),
            )
            &&& action[1].0 == "enum"@
            &&& action[1].1 is Array
            &&& action[1].1->Array_0 == seq![
                JsonView::Text("patch"@),
                JsonView::Text("write_file"@),
                JsonView::Text("archive"@),
            ]
        }),
{
}

/// The schema of `skill_view` asks for a slug, a text, and offers nothing else.
pub proof fn law_view_schema_asks_for_a_slug()
    ensures
        ({
            let top = SkillViewTool::schema()->Object_0;
            let offered = top[1].1->Object_0;
            &&& SkillViewTool::schema() is Object
            &&& top.len() == 4
            &&& top[0] == ("type"@, JsonView::Text("object"@))
            &&& top[1].0 == "properties"@
            &&& top[1].1 is Object
            &&& top[2].0 == "required"@
            &&& top[2].1 is Array
            &&& top[2].1->Array_0 == seq![JsonView::Text("slug"@)]
            &&& top[3] == ("additionalProperties"@, JsonView::Bool(false))
            &&& offered.len() == 1
            &&& offered[0].0 == "slug"@
            &&& offered[0].1 is Object
            &&& offered[0].1->Object_0[0] == ("type"@, JsonView::Text("string"@))
        }),
{
}

} // verus!
