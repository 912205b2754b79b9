//! One skill: its front matter, a preview of its body and its support files.

use vstd::prelude::*;
#[allow(unused_imports)]
use vstd::utf8::{
    decode_utf8, decode_utf8_encode_utf8, decode_utf8_split, encode_utf8, encode_utf8_decode_utf8, encode_utf8_valid_utf8,
    is_char_boundary, is_char_boundary_start_end_of_seq, length_of_first_scalar, pop_first_scalar,
    valid_utf8, valid_utf8_split,
};

use super::dirs::resolve_skill_dir;
#[allow(unused_imports)]
use super::dirs::{bad_slug, dir_of, valid_slug};
use super::front::split_front_matter;
#[allow(unused_imports)]
use super::front::front_matter;
use super::tool::{Step, ToolError, ToolResult};
#[allow(unused_imports)]
use super::tool::{refusal, success, StepView};
use crate::json::{array_value, object_value, push_member, push_text, text_value, Json};
#[allow(unused_imports)]
use crate::json::{items_view, members_view, JsonView};
use crate::order::sort_order;
#[allow(unused_imports)]
use crate::order::{
    arranged, is_sort_order, law_sort_order_is_sorted, lemma_arranged_has_same_items,
    lemma_sort_order_exists, sorted_order, text_le,
};
use crate::path::join_path;
#[allow(unused_imports)]
use crate::path::join;
use crate::text::{decimal_of, trim_of};
#[allow(unused_imports)]
use crate::text::{decimal, texts, trim};

verus! {

/// How much of a body the preview shows, in bytes.
pub const BODY_PREVIEW_CHARS: usize = 2_000;

// ---------------------------------------------------------------------------
// Support files
// ---------------------------------------------------------------------------

/// The names found in the directories for support files. A directory that
/// could not be read has none.
#[derive(Debug)]
pub struct SupportNames {
    pub references: Vec<String>,
    pub templates: Vec<String>,
    pub scripts: Vec<String>,
}

/// The names found in the directories for support files, as sequences.
pub struct SupportNamesView {
    pub references: Seq<Seq<char>>,
    pub templates: Seq<Seq<char>>,
    pub scripts: Seq<Seq<char>>,
}

impl View for SupportNames {
    type V = SupportNamesView;

    open spec fn view(&self) -> SupportNamesView {
        SupportNamesView {
            references: texts(self.references@),
            templates: texts(self.templates@),
            scripts: texts(self.scripts@),
        }
    }
}

/// Each of `names` with `prefix` before it.
pub open spec fn under(prefix: Seq<char>, names: Seq<Seq<char>>) -> Seq<Seq<char>> {
    Seq::new(names.len(), |i: int| prefix + names[i])
}

/// The support files, directory by directory.
pub open spec fn found_files(names: SupportNamesView) -> Seq<Seq<char>> {
    under("references/"@, names.references) + under("templates/"@, names.templates) + under(
        "scripts/"@,
        names.scripts,
    )
}

/// The support files, sorted.
pub open spec fn support_files(names: SupportNamesView) -> Seq<Seq<char>> {
    arranged(found_files(names), sorted_order(found_files(names)))
}

fn push_under(out: &mut Vec<String>, prefix: &str, names: &Vec<String>)
    ensures
        texts(final(out)@) == texts(old(out)@) + under(prefix@, texts(names@)),
{
    let ghost before = texts(out@);
    let ghost all = under(prefix@, texts(names@));
    let mut i: usize = 0;
    proof {
        assert(before + all.take(0) =~= before);
    }
    while i < names.len()
        invariant
            i <= names@.len(),
            all == under(prefix@, texts(names@)),
            texts(out@) == before + all.take(i as int),
        decreases names@.len() - i,
    {
        let ghost mid = out@;
        let mut path = prefix.to_owned();
        path.append(names[i].as_str());
        out.push(path);
        proof {
            assert(texts(out@) =~= texts(mid).push(all[i as int]));
            assert(before + all.take(i + 1) =~= (before + all.take(i as int)).push(all[i as int]));
        }
        i = i + 1;
    }
    proof {
        assert(all.take(all.len() as int) =~= all);
    }
}

/// The support files, sorted.
pub fn collect_support_files(names: &SupportNames) -> (out: Vec<String>)
    ensures
        texts(out@) == support_files(names@),
        out@.len() == names.references@.len() + names.templates@.len() + names.scripts@.len(),
{
    let mut found: Vec<String> = Vec::new();
    proof {
        assert(texts(found@) =~= Seq::<Seq<char>>::empty());
    }
    push_under(&mut found, "references/", &names.references);
    push_under(&mut found, "templates/", &names.templates);
    push_under(&mut found, "scripts/", &names.scripts);
    let ghost all = found_files(names@);
    proof {
        assert(texts(found@) =~= all);
    }
    let order = sort_order(&found);
    let mut out: Vec<String> = Vec::new();
    let mut k: usize = 0;
    proof {
        assert(texts(out@) =~= arranged(all, order@).take(0));
    }
    while k < order.len()
        invariant
            k <= order@.len(),
            all == texts(found@),
            is_sort_order(order@, all),
            texts(out@) == arranged(all, order@).take(k as int),
        decreases order@.len() - k,
    {
        let ghost before = out@;
        let at: usize = order[k];
        out.push(found[at].clone());
        proof {
            assert(texts(out@) =~= texts(before).push(all[at as int]));
            assert(arranged(all, order@).take(k + 1) =~= arranged(all, order@).take(
                k as int,
            ).push(all[at as int]));
        }
        k = k + 1;
    }
    proof {
        assert(arranged(all, order@).take(order@.len() as int) =~= arranged(all, order@));
    }
    out
}

/// The support files come sorted.
pub proof fn law_support_files_come_sorted(names: SupportNamesView, i: int, j: int)
    requires
        found_files(names).len() <= usize::MAX,
        0 <= i <= j < support_files(names).len(),
    ensures
        text_le(support_files(names)[i], support_files(names)[j]),
{
    let all = found_files(names);
    lemma_sort_order_exists(all);
    law_sort_order_is_sorted(sorted_order(all), all, i, j);
}

/// Every file that was found is listed, and no other.
pub proof fn law_every_support_file_is_listed(names: SupportNamesView, file: Seq<char>)
    requires
        found_files(names).len() <= usize::MAX,
    ensures
        support_files(names).len() == found_files(names).len(),
        support_files(names).contains(file) <==> found_files(names).contains(file),
{
    let all = found_files(names);
    lemma_sort_order_exists(all);
    lemma_arranged_has_same_items(all, sorted_order(all), all, file);
}

// ---------------------------------------------------------------------------
// The page
// ---------------------------------------------------------------------------

/// The front matter and the body of a `SKILL.md`; without front matter, all of
/// it is body.
pub open spec fn parts(md: Seq<char>) -> (Seq<char>, Seq<char>) {
    match front_matter(md) {
        Some(p) => p,
        None => (Seq::empty(), md),
    }
}

/// The front matter and the body of a `SKILL.md`.
fn parts_of(md: &str) -> (out: (String, String))
    ensures
        (out.0@, out.1@) == parts(md@),
{
    match split_front_matter(md) {
        Some(p) => p,
        None => {
            let out = (String::new(), md.to_owned());
            proof {
                assert(out.0@ =~= Seq::<char>::empty());
            }
            out
        },
    }
}

/// `i` is the last place at which the preview can end: no further than its
/// limit, and not within a character.
pub open spec fn cuts_at(bytes: Seq<u8>, i: int) -> bool {
    &&& 0 <= i <= BODY_PREVIEW_CHARS
    &&& is_char_boundary(bytes, i)
    &&& forall|j: int| i < j <= BODY_PREVIEW_CHARS ==> !is_char_boundary(bytes, j)
}

/// Where the preview of a long body ends.
pub open spec fn cut(body: Seq<char>) -> int {
    choose|i: int| cuts_at(encode_utf8(body), i)
}

/// What the preview shows of a long body.
pub open spec fn beginning(body: Seq<char>) -> Seq<char> {
    decode_utf8(encode_utf8(body).take(cut(body)))
}

/// The preview of a body: all of it, or its beginning and a note on how long
/// it is.
pub open spec fn preview(body: Seq<char>) -> Seq<char> {
    let bytes = encode_utf8(body);
    if bytes.len() > BODY_PREVIEW_CHARS {
        beginning(body) + "…\n[truncated; full body is "@ + decimal(bytes.len()) + " bytes]"@
    } else {
        body
    }
}

/// A body that is white space alone is not shown.
pub open spec fn shows_body(body: Seq<char>) -> bool {
    trim(body).len() > 0
}

/// The files as a list, one a line.
pub open spec fn files_text(files: Seq<Seq<char>>) -> Seq<char>
    decreases files.len(),
{
    if files.len() == 0 {
        Seq::empty()
    } else {
        files_text(files.drop_last()) + ("- "@ + files.last() + "\n"@)
    }
}

/// The page of a skill.
pub open spec fn page(slug: Seq<char>, md: Seq<char>, files: Seq<Seq<char>>) -> Seq<char> {
    let (front, body) = parts(md);
    let top = "# Skill '"@ + slug + "'\n\n## Front-matter\n\n```yaml\n"@ + front + "\n```\n"@;
    let middle = if shows_body(body) {
        top + ("\n## Body (Markdown)\n\n"@ + preview(body) + "\n"@)
    } else {
        top
    };
    if files.len() == 0 {
        middle
    } else {
        middle + "\n## Support files\n"@ + files_text(files)
    }
}

/// The preview of a body.
fn preview_of(body: &str) -> (out: String)
    ensures
        out@ == preview(body@),
{
    let size: usize = body.as_bytes().len();
    if size > BODY_PREVIEW_CHARS {
        let ghost bytes = encode_utf8(body@);
        let mut end: usize = BODY_PREVIEW_CHARS;
        while !body.is_char_boundary(end)
            invariant
                bytes == encode_utf8(body@),
                end <= BODY_PREVIEW_CHARS,
                forall|j: int| end < j <= BODY_PREVIEW_CHARS ==> !is_char_boundary(bytes, j),
            decreases end,
        {
            proof {
                encode_utf8_valid_utf8(body@);
                is_char_boundary_start_end_of_seq(bytes);
            }
            end = end - 1;
        }
        let (shown, _) = body.split_at(end);
        proof {
            assert(cuts_at(bytes, end as int));
            assert(cuts_at(bytes, cut(body@)));
            assert(cut(body@) == end);
            assert(bytes.take(end as int) =~= bytes.subrange(0, end as int));
            encode_utf8_decode_utf8(shown@);
        }
        let mut out = shown.to_owned();
        out.append("…\n[truncated; full body is ");
        let bytes_text = decimal_of(size as u64);
        out.append(bytes_text.as_str());
        out.append(" bytes]");
        out
    } else {
        body.to_owned()
    }
}

/// Close before each place in a text there is one that is not within a
/// character: none is longer than four bytes.
proof fn lemma_boundary_near(bytes: Seq<u8>, i: int) -> (at: int)
    requires
        valid_utf8(bytes),
        0 <= i <= bytes.len(),
    ensures
        i - 3 <= at <= i,
        0 <= at,
        is_char_boundary(bytes, at),
    decreases bytes.len(),
{
    is_char_boundary_start_end_of_seq(bytes);
    if bytes.len() == 0 || i < length_of_first_scalar(bytes) {
        0
    } else {
        let n = length_of_first_scalar(bytes);
        let rest = pop_first_scalar(bytes);
        let at = lemma_boundary_near(rest, i - n);
        at + n
    }
}

/// The preview of a long body ends within four bytes of its limit, and what it
/// shows is how the body begins, to the byte.
pub proof fn law_preview_shows_how_the_body_begins(body: Seq<char>)
    requires
        encode_utf8(body).len() > BODY_PREVIEW_CHARS,
    ensures
        cuts_at(encode_utf8(body), cut(body)),
        BODY_PREVIEW_CHARS - 3 <= cut(body),
        beginning(body).is_prefix_of(body),
        beginning(body).len() < body.len(),
        encode_utf8(beginning(body)) == encode_utf8(body).take(cut(body)),
{
    let bytes = encode_utf8(body);
    let limit = BODY_PREVIEW_CHARS as int;
    encode_utf8_valid_utf8(body);
    encode_utf8_decode_utf8(body);
    let near = lemma_boundary_near(bytes, limit);
    lemma_cut_exists(bytes, limit);
    let i = cut(body);
    assert(cuts_at(bytes, i));
    assert(i >= near);
    decode_utf8_split(bytes, i);
    valid_utf8_split(bytes, i);
    assert(bytes.take(i) =~= bytes.subrange(0, i));
    let rest = decode_utf8(bytes.subrange(i, bytes.len() as int));
    assert(body =~= beginning(body) + rest);
    assert(body.take(beginning(body).len() as int) =~= beginning(body));
    decode_utf8_encode_utf8(bytes.subrange(0, i));
    if beginning(body).len() == body.len() {
        assert(beginning(body) =~= body);
        assert(bytes.take(i).len() == i);
    }
}

proof fn lemma_cut_exists(bytes: Seq<u8>, limit: int)
    requires
        valid_utf8(bytes),
        0 <= limit <= BODY_PREVIEW_CHARS,
        forall|j: int| limit < j <= BODY_PREVIEW_CHARS ==> !is_char_boundary(bytes, j),
    ensures
        exists|i: int| cuts_at(bytes, i),
    decreases limit,
{
    is_char_boundary_start_end_of_seq(bytes);
    if is_char_boundary(bytes, limit) {
        assert(cuts_at(bytes, limit));
    } else {
        lemma_cut_exists(bytes, limit - 1);
    }
}

// ---------------------------------------------------------------------------
// The tool
// ---------------------------------------------------------------------------

/// A call that waits for the `SKILL.md` at `skill_md` to be read.
#[derive(Debug)]
pub struct ViewLookup {
    pub slug: String,
    pub skill_dir: String,
    pub skill_md: String,
}

/// A call that waits for a `SKILL.md`, with texts as sequences.
pub struct ViewLookupView {
    pub slug: Seq<char>,
    pub skill_dir: Seq<char>,
    pub skill_md: Seq<char>,
}

impl View for ViewLookup {
    type V = ViewLookupView;

    open spec fn view(&self) -> ViewLookupView {
        ViewLookupView {
            slug: self.slug@,
            skill_dir: self.skill_dir@,
            skill_md: self.skill_md@,
        }
    }
}

/// A call that waits for the names in the directories for support files below
/// `skill_dir`.
#[derive(Debug)]
pub struct ViewPage {
    pub slug: String,
    pub skill_dir: String,
    pub md: String,
}

/// A call that waits for support files, with texts as sequences.
pub struct ViewPageView {
    pub slug: Seq<char>,
    pub skill_dir: Seq<char>,
    pub md: Seq<char>,
}

impl View for ViewPage {
    type V = ViewPageView;

    open spec fn view(&self) -> ViewPageView {
        ViewPageView { slug: self.slug@, skill_dir: self.skill_dir@, md: self.md@ }
    }
}

/// Where a call stands that asks for the skill `slug`.
pub open spec fn view_step(workspace: Seq<char>, slug: Seq<char>) -> StepView<ViewLookupView> {
    if valid_slug(slug) {
        StepView::Next(
            ViewLookupView {
                slug,
                skill_dir: dir_of(workspace, slug),
                skill_md: join(dir_of(workspace, slug), "SKILL.md"@),
            },
        )
    } else {
        StepView::Done(refusal(bad_slug(slug)))
    }
}

impl ViewLookup {
    /// Goes on with what the `SKILL.md` holds, or with why it could not be
    /// read.
    pub fn read(self, md: Result<String, String>) -> (out: Step<ViewPage>)
        ensures
            match md {
                Ok(md) => out@ == StepView::Next(
                    (ViewPageView { slug: self@.slug, skill_dir: self@.skill_dir, md: md@ }),
                ),
                Err(e) => out@ == StepView::<ViewPageView>::Done(
                    refusal("Skill '"@ + self@.slug + "' not found: "@ + e@),
                ),
            },
    {
        match md {
            Ok(md) => Step::Next(ViewPage { slug: self.slug, skill_dir: self.skill_dir, md }),
            Err(e) => {
                let mut error = "Skill '".to_owned();
                error.append(self.slug.as_str());
                error.append("' not found: ");
                error.append(e.as_str());
                Step::Done(ToolResult::refused(error))
            },
        }
    }
}

impl ViewPage {
    /// The answer, once the support files are known.
    pub fn render(&self, names: &SupportNames) -> (out: ToolResult)
        ensures
            out@ == success(page(self@.slug, self@.md, support_files(names@))),
    {
        let (front, body) = parts_of(self.md.as_str());
        let files = collect_support_files(names);
        let mut output = "# Skill '".to_owned();
        output.append(self.slug.as_str());
        output.append("'\n\n## Front-matter\n\n```yaml\n");
        output.append(front.as_str());
        output.append("\n```\n");
        if !trim_of(body.as_str()).as_str().is_empty() {
            let shown = preview_of(body.as_str());
            let mut part = "\n## Body (Markdown)\n\n".to_owned();
            part.append(shown.as_str());
            part.append("\n");
            output.append(part.as_str());
        }
        if files.len() > 0 {
            output.append("\n## Support files\n");
            let ghost top = output@;
            let ghost all = texts(files@);
            let mut i: usize = 0;
            proof {
                assert(all.take(0) =~= Seq::<Seq<char>>::empty());
                assert(top + Seq::<char>::empty() =~= top);
            }
            while i < files.len()
                invariant
                    i <= files@.len(),
                    all == texts(files@),
                    output@ == top + files_text(all.take(i as int)),
                decreases files@.len() - i,
            {
                let mut line = "- ".to_owned();
                line.append(files[i].as_str());
                line.append("\n");
                output.append(line.as_str());
                proof {
                    let upto = all.take(i + 1);
                    assert(upto.drop_last() =~= all.take(i as int));
                    assert(upto.last() == files@[i as int]@);
                    assert(top + files_text(all.take(i as int)) + line@ =~= top + files_text(upto));
                }
                i = i + 1;
            }
            proof {
                assert(all.take(all.len() as int) =~= all);
            }
        }
        ToolResult::done(output)
    }
}

/// Shows one skill. It changes nothing.
#[derive(Debug)]
pub struct SkillViewTool {
    workspace_dir: String,
}

impl SkillViewTool {
    /// The workspace whose skills are shown.
    pub closed spec fn workspace(&self) -> Seq<char> {
        self.workspace_dir@
    }

    /// The tool for the skills of a workspace.
    pub fn new(workspace_dir: String) -> (out: Self)
        ensures
            out.workspace() == workspace_dir@,
    {
        SkillViewTool { workspace_dir }
    }

    /// The name that the tool is called by.
    pub fn name(&self) -> (out: &'static str)
        ensures
            out@ == "skill_view"@,
    {
        "skill_view"
    }

    /// What the tool says of itself.
    pub fn description(&self) -> (out: &'static str)
        ensures
            out@
                == "Read a single skill's SKILL.md content (YAML front-matter + body preview) plus the names of its support files under references/, templates/, scripts/. Use this before deciding whether to patch the skill or add a support file."@,
    {
        "Read a single skill's SKILL.md content (YAML front-matter + body preview) plus the names of its support files under references/, templates/, scripts/. Use this before deciding whether to patch the skill or add a support file."
    }

    /// The schema of the tool's arguments: an object with a `slug`.
    pub open spec fn schema() -> JsonView {
        JsonView::Object(
            seq![
                ("type"@, JsonView::Text("object"@)),
                (
                    "properties"@,
                    JsonView::Object(
                        seq![
                            (
                                "slug"@,
                                JsonView::Object(
                                    seq![
                                        ("type"@, JsonView::Text("string"@)),
                                        (
                                            "description"@,
                                            JsonView::Text(
                                                "Skill slug (directory name under workspace/skills/)."@,
                                            ),
                                        ),
                                    ],
                                ),
                            ),
                        ],
                    ),
                ),
                ("required"@, JsonView::Array(seq![JsonView::Text("slug"@)])),
                ("additionalProperties"@, JsonView::Bool(false)),
            ],
        )
    }

    /// The schema of the tool's arguments.
    pub fn parameters_schema(&self) -> (out: Json)
        ensures
            out@ == Self::schema(),
    {
        let mut slug: Vec<(String, Json)> = Vec::new();
        let mut properties: Vec<(String, Json)> = Vec::new();
        let mut required: Vec<Json> = Vec::new();
        let mut schema: Vec<(String, Json)> = Vec::new();
        proof {
            assert(members_view(slug@) =~= Seq::empty());
        }
        push_text(&mut slug, "type", "string");
        push_text(&mut slug, "description", "Skill slug (directory name under workspace/skills/).");
        push_member(&mut properties, "slug", object_value(slug));
        required.push(text_value("slug"));
        push_text(&mut schema, "type", "object");
        push_member(&mut schema, "properties", object_value(properties));
        push_member(&mut schema, "required", array_value(required));
        push_member(&mut schema, "additionalProperties", Json::Bool(false));
        let out = object_value(schema);
        proof {
            let want = Self::schema()->Object_0;
            let want_properties = want[1].1->Object_0;
            let want_slug = want_properties[0].1->Object_0;
            let want_required = want[2].1->Array_0;
            assert(members_view(slug@) =~= want_slug);
            assert(members_view(properties@) =~= want_properties);
            assert(items_view(required@) =~= want_required);
            assert(members_view(schema@) =~= want);
        }
        out
    }

    /// Begins a call: an error where the arguments name no skill.
    pub fn execute(&self, args: &Json) -> (out: Result<Step<ViewLookup>, ToolError>)
        ensures
            match out {
                Ok(step) => args@.text_member("slug"@) is Some && step@ == view_step(
                    self.workspace(),
                    args@.text_member("slug"@)->0,
                ),
                Err(e) => args@.text_member("slug"@) is None && e == ToolError::MissingSlug,
            },
    {
        let slug: String = match args.get_text("slug") {
            Some(slug) => slug,
            None => return Err(ToolError::MissingSlug),
        };
        match resolve_skill_dir(self.workspace_dir.as_str(), slug.as_str()) {
            Ok(skill_dir) => {
                let skill_md = join_path(skill_dir.as_str(), "SKILL.md");
                Ok(Step::Next(ViewLookup { slug, skill_dir, skill_md }))
            },
            Err(e) => Ok(Step::Done(ToolResult::refused(e))),
        }
    }
}

} // verus!
