//! The list of installed skills.

use vstd::prelude::*;

use super::dirs::skills_root;
#[allow(unused_imports)]
use super::dirs::root_of;
use super::front::{front_value, split_front_matter};
#[allow(unused_imports)]
use super::front::{front_matter, value_of};
use super::tool::ToolResult;
#[allow(unused_imports)]
use super::tool::{refusal, success, ToolResultView};
use crate::json::{object_value, push_member, push_text, Json};
#[allow(unused_imports)]
use crate::json::{members_view, JsonView};
use crate::order::sort_order;
#[allow(unused_imports)]
use crate::order::{arranged, is_sort_order, sorted_order};
use crate::text::{decimal_of, starts_with};
#[allow(unused_imports)]
use crate::text::{decimal, opt_text, texts};

verus! {

/// An entry of the skills directory, as it was found.
#[derive(Debug)]
pub struct DirEntry {
    pub name: String,
    pub is_dir: bool,
    /// What the `SKILL.md` in it holds, where there is one that can be read.
    pub skill_md: Option<String>,
}

/// An entry of the skills directory, with its texts as sequences.
pub struct DirEntryView {
    pub name: Seq<char>,
    pub is_dir: bool,
    pub skill_md: Option<Seq<char>>,
}

impl View for DirEntry {
    type V = DirEntryView;

    open spec fn view(&self) -> DirEntryView {
        DirEntryView {
            name: self.name@,
            is_dir: self.is_dir,
            skill_md: opt_text(self.skill_md),
        }
    }
}

/// The entries with their texts as sequences.
pub open spec fn entry_views(entries: Seq<DirEntry>) -> Seq<DirEntryView> {
    Seq::new(entries.len(), |i: int| entries[i]@)
}

/// What came of reading the skills directory.
#[derive(Debug)]
pub enum DirListing {
    /// There is no such directory.
    Missing,
    /// It could not be read, for the reason given.
    Failed(String),
    /// It holds these entries.
    Entries(Vec<DirEntry>),
}

/// What came of reading the skills directory, with texts as sequences.
pub enum DirListingView {
    Missing,
    Failed(Seq<char>),
    Entries(Seq<DirEntryView>),
}

impl View for DirListing {
    type V = DirListingView;

    open spec fn view(&self) -> DirListingView {
        match *self {
            DirListing::Missing => DirListingView::Missing,
            DirListing::Failed(e) => DirListingView::Failed(e@),
            DirListing::Entries(entries) => DirListingView::Entries(entry_views(entries@)),
        }
    }
}

/// An installed skill, as the list shows it.
#[derive(Debug)]
pub struct SkillRow {
    pub slug: String,
    pub name: String,
    pub description: String,
    pub version: String,
}

/// An installed skill, with its texts as sequences.
pub struct SkillRowView {
    pub slug: Seq<char>,
    pub name: Seq<char>,
    pub description: Seq<char>,
    pub version: Seq<char>,
}

impl View for SkillRow {
    type V = SkillRowView;

    open spec fn view(&self) -> SkillRowView {
        SkillRowView {
            slug: self.slug@,
            name: self.name@,
            description: self.description@,
            version: self.version@,
        }
    }
}

/// The rows with their texts as sequences.
pub open spec fn row_views(rows: Seq<SkillRow>) -> Seq<SkillRowView> {
    Seq::new(rows.len(), |i: int| rows[i]@)
}

/// A name that begins with a dot is hidden.
pub open spec fn hidden(name: Seq<char>) -> bool {
    name.len() > 0 && name[0] == '.'
}

/// Whether a name begins with a dot: such an entry is passed over unseen.
pub fn is_hidden(name: &str) -> (yes: bool)
    ensures
        yes == hidden(name@),
{
    proof {
        reveal_strlit(".");
        if name@.len() > 0 {
            assert(name@.take(1)[0] == name@[0]);
            assert("."@[0] == '.');
            if name@[0] == '.' {
                assert(name@.take(1) =~= "."@);
            }
        }
    }
    starts_with(name, ".")
}

/// The value that front matter gives for `key`, `otherwise` where it gives
/// none.
pub open spec fn value_or(front: Seq<char>, key: Seq<char>, otherwise: Seq<char>) -> Seq<char> {
    match value_of(front, key) {
        Some(v) => v,
        None => otherwise,
    }
}

fn front_value_or(front: &str, key: &str, otherwise: &str) -> (out: String)
    ensures
        out@ == value_or(front@, key@, otherwise@),
{
    match front_value(front, key) {
        Some(v) => v,
        None => otherwise.to_owned(),
    }
}

/// The skill that an entry holds: none where the entry is hidden or no
/// directory, or where it has no `SKILL.md` with front matter.
pub open spec fn skill_in(entry: DirEntryView) -> Option<SkillRowView> {
    if hidden(entry.name) || !entry.is_dir {
        None
    } else {
        match entry.skill_md {
            Some(md) => match front_matter(md) {
                Some(p) => Some(
                    SkillRowView {
                        slug: entry.name,
                        name: value_or(p.0, "name"@, ""@),
                        description: value_or(p.0, "description"@, ""@),
                        version: value_or(p.0, "version"@, "0.0.0"@),
                    },
                ),
                None => None,
            },
            None => None,
        }
    }
}

/// The skills that the entries hold, in the order of the entries.
pub open spec fn skills_in(entries: Seq<DirEntryView>) -> Seq<SkillRowView>
    decreases entries.len(),
{
    if entries.len() == 0 {
        Seq::empty()
    } else {
        match skill_in(entries.last()) {
            Some(row) => skills_in(entries.drop_last()).push(row),
            None => skills_in(entries.drop_last()),
        }
    }
}

/// The slugs of the rows.
pub open spec fn slugs(rows: Seq<SkillRowView>) -> Seq<Seq<char>> {
    Seq::new(rows.len(), |i: int| rows[i].slug)
}

/// The skills that the entries hold, sorted by slug.
pub open spec fn installed(entries: Seq<DirEntryView>) -> Seq<SkillRowView> {
    arranged(skills_in(entries), sorted_order(slugs(skills_in(entries))))
}

/// The skills that the directory holds, sorted by slug; why it could not be
/// read otherwise. A directory that is missing holds none.
pub open spec fn listed(listing: DirListingView) -> Result<Seq<SkillRowView>, Seq<char>> {
    match listing {
        DirListingView::Missing => Ok(Seq::empty()),
        DirListingView::Failed(e) => Err(e),
        DirListingView::Entries(entries) => Ok(installed(entries)),
    }
}

/// The skill that an entry holds.
fn skill_of(entry: &DirEntry) -> (out: Option<SkillRow>)
    ensures
        match out {
            Some(row) => skill_in(entry@) == Some(row@),
            None => skill_in(entry@) is None,
        },
{
    if is_hidden(entry.name.as_str()) || !entry.is_dir {
        return None;
    }
    match &entry.skill_md {
        Some(md) => match split_front_matter(md.as_str()) {
            Some((front, _)) => {
                let f: &str = front.as_str();
                Some(
                    SkillRow {
                        slug: entry.name.clone(),
                        name: front_value_or(f, "name", ""),
                        description: front_value_or(f, "description", ""),
                        version: front_value_or(f, "version", "0.0.0"),
                    },
                )
            },
            None => None,
        },
        None => None,
    }
}

fn copy_row(row: &SkillRow) -> (out: SkillRow)
    ensures
        out@ == row@,
{
    SkillRow {
        slug: row.slug.clone(),
        name: row.name.clone(),
        description: row.description.clone(),
        version: row.version.clone(),
    }
}

/// The skills that the directory holds, sorted by slug.
pub fn list_skill_entries(listing: &DirListing) -> (out: Result<Vec<SkillRow>, String>)
    ensures
        match out {
            Ok(rows) => listed(listing@) == Ok::<Seq<SkillRowView>, Seq<char>>(row_views(rows@)),
            Err(e) => listed(listing@) == Err::<Seq<SkillRowView>, Seq<char>>(e@),
        },
{
    let entries: &Vec<DirEntry> = match listing {
        DirListing::Missing => {
            let none: Vec<SkillRow> = Vec::new();
            proof {
                assert(row_views(none@) =~= Seq::<SkillRowView>::empty());
            }
            return Ok(none);
        },
        DirListing::Failed(e) => {
            return Err(e.clone());
        },
        DirListing::Entries(entries) => entries,
    };
    let ghost found = entry_views(entries@);
    let mut rows: Vec<SkillRow> = Vec::new();
    let mut keys: Vec<String> = Vec::new();
    let mut i: usize = 0;
    proof {
        assert(found.take(0) =~= Seq::<DirEntryView>::empty());
        assert(row_views(rows@) =~= Seq::<SkillRowView>::empty());
        assert(texts(keys@) =~= Seq::<Seq<char>>::empty());
        assert(slugs(row_views(rows@)) =~= Seq::<Seq<char>>::empty());
    }
    while i < entries.len()
        invariant
            i <= entries@.len(),
            found == entry_views(entries@),
            row_views(rows@) == skills_in(found.take(i as int)),
            texts(keys@) == slugs(row_views(rows@)),
        decreases entries@.len() - i,
    {
        let ghost upto = found.take(i + 1);
        let ghost rows_before = rows@;
        let ghost keys_before = keys@;
        proof {
            assert(upto.drop_last() =~= found.take(i as int));
            assert(upto.last() == entries@[i as int]@);
        }
        if let Some(row) = skill_of(&entries[i]) {
            keys.push(row.slug.clone());
            rows.push(row);
            proof {
                assert(row_views(rows@) =~= row_views(rows_before).push(row@));
                assert(texts(keys@) =~= texts(keys_before).push(row@.slug));
                assert(slugs(row_views(rows@)) =~= slugs(row_views(rows_before)).push(row@.slug));
            }
        }
        i = i + 1;
    }
    proof {
        assert(found.take(found.len() as int) =~= found);
    }
    let order = sort_order(&keys);
    let ghost all = row_views(rows@);
    let mut out: Vec<SkillRow> = Vec::new();
    let mut k: usize = 0;
    while k < order.len()
        invariant
            k <= order@.len(),
            all == row_views(rows@),
            is_sort_order(order@, slugs(all)),
            row_views(out@) == arranged(all, order@).take(k as int),
        decreases order@.len() - k,
    {
        let ghost before = out@;
        let at: usize = order[k];
        out.push(copy_row(&rows[at]));
        proof {
            assert(row_views(out@) =~= row_views(before).push(rows@[at as int]@));
            assert(arranged(all, order@).take(k + 1) =~= arranged(all, order@).take(
                k as int,
            ).push(all[at as int]));
        }
        k = k + 1;
    }
    proof {
        assert(arranged(all, order@).take(order@.len() as int) =~= arranged(all, order@));
    }
    Ok(out)
}

/// What the list says of one skill: its name, or its slug where it has none,
/// the version and the slug, and the description on a line of its own.
pub open spec fn row_text(row: SkillRowView) -> Seq<char> {
    let shown = if row.name.len() == 0 {
        row.slug
    } else {
        row.name
    };
    let line = "- "@ + shown + " v"@ + row.version + " ("@ + row.slug + ")\n"@;
    if row.description.len() == 0 {
        line
    } else {
        line + ("    "@ + row.description + "\n"@)
    }
}

/// What the list says of the skills, one after the other.
pub open spec fn rows_text(rows: Seq<SkillRowView>) -> Seq<char>
    decreases rows.len(),
{
    if rows.len() == 0 {
        Seq::empty()
    } else {
        rows_text(rows.drop_last()) + row_text(rows.last())
    }
}

/// The list as a text.
pub open spec fn list_text(rows: Seq<SkillRowView>) -> Seq<char> {
    if rows.len() == 0 {
        "0 installed skills."@
    } else {
        decimal(rows.len()) + " installed skills:\n\n"@ + rows_text(rows)
    }
}

/// What the tool answers for what was found.
pub open spec fn list_result(listing: DirListingView) -> ToolResultView {
    match listed(listing) {
        Ok(rows) => success(list_text(rows)),
        Err(e) => refusal("Failed to read skills directory: "@ + e),
    }
}

fn row_text_of(row: &SkillRow) -> (out: String)
    ensures
        out@ == row_text(row@),
{
    let mut out = "- ".to_owned();
    if row.name.as_str().is_empty() {
        out.append(row.slug.as_str());
    } else {
        out.append(row.name.as_str());
    }
    out.append(" v");
    out.append(row.version.as_str());
    out.append(" (");
    out.append(row.slug.as_str());
    out.append(")\n");
    if !row.description.as_str().is_empty() {
        let mut more = "    ".to_owned();
        more.append(row.description.as_str());
        more.append("\n");
        out.append(more.as_str());
    }
    out
}

/// Lists installed skills. It changes nothing.
#[derive(Debug)]
pub struct SkillsListTool {
    workspace_dir: String,
}

impl SkillsListTool {
    /// The workspace whose skills are listed.
    pub closed spec fn workspace(&self) -> Seq<char> {
        self.workspace_dir@
    }

    /// The tool for the skills of a workspace.
    pub fn new(workspace_dir: String) -> (out: Self)
        ensures
            out.workspace() == workspace_dir@,
    {
        SkillsListTool { workspace_dir }
    }

    /// The name that the tool is called by.
    pub fn name(&self) -> (out: &'static str)
        ensures
            out@ == "skills_list"@,
    {
        "skills_list"
    }

    /// What the tool says of itself.
    pub fn description(&self) -> (out: &'static str)
        ensures
            out@
                == "List installed skills with their name, version, and one-line description. Read-only. Use before `skill_view` or `skill_manage` to find candidate slugs."@,
    {
        "List installed skills with their name, version, and one-line description. Read-only. Use before `skill_view` or `skill_manage` to find candidate slugs."
    }

    /// The schema of the tool's arguments: an object without members.
    pub fn parameters_schema(&self) -> (out: Json)
        ensures
            out@ == JsonView::Object(
                seq![
                    ("type"@, JsonView::Text("object"@)),
                    ("properties"@, JsonView::Object(Seq::empty())),
                    ("additionalProperties"@, JsonView::Bool(false)),
                ],
            ),
    {
        let none: Vec<(String, Json)> = Vec::new();
        let mut schema: Vec<(String, Json)> = Vec::new();
        proof {
            assert(members_view(none@) =~= Seq::empty());
            assert(members_view(schema@) =~= Seq::empty());
        }
        push_text(&mut schema, "type", "object");
        push_member(&mut schema, "properties", object_value(none));
        push_member(&mut schema, "additionalProperties", Json::Bool(false));
        proof {
            assert(members_view(schema@) =~= seq![
                ("type"@, JsonView::Text("object"@)),
                ("properties"@, JsonView::Object(Seq::empty())),
                ("additionalProperties"@, JsonView::Bool(false)),
            ]);
        }
        object_value(schema)
    }

    /// The directory that has to be read before the tool can answer.
    pub fn directory(&self) -> (out: String)
        ensures
            out@ == root_of(self.workspace()),
    {
        skills_root(self.workspace_dir.as_str())
    }

    /// The answer to a call, whatever its arguments, once the directory has
    /// been read.
    pub fn execute(&self, _args: &Json, listing: &DirListing) -> (out: ToolResult)
        ensures
            out@ == list_result(listing@),
    {
        let rows: Vec<SkillRow> = match list_skill_entries(listing) {
            Ok(rows) => rows,
            Err(e) => {
                let mut error = "Failed to read skills directory: ".to_owned();
                error.append(e.as_str());
                return ToolResult::refused(error);
            },
        };
        if rows.len() == 0 {
            return ToolResult::done("0 installed skills.".to_owned());
        }
        let mut output = decimal_of(rows.len() as u64);
        output.append(" installed skills:\n\n");
        let ghost top = output@;
        let ghost all = row_views(rows@);
        let mut i: usize = 0;
        proof {
            assert(all.take(0) =~= Seq::<SkillRowView>::empty());
            assert(top + Seq::<char>::empty() =~= top);
        }
        while i < rows.len()
            invariant
                i <= rows@.len(),
                all == row_views(rows@),
                output@ == top + rows_text(all.take(i as int)),
            decreases rows@.len() - i,
        {
            let line = row_text_of(&rows[i]);
            output.append(line.as_str());
            proof {
                let upto = all.take(i + 1);
                assert(upto.drop_last() =~= all.take(i as int));
                assert(upto.last() == rows@[i as int]@);
                assert(top + rows_text(all.take(i as int)) + line@ =~= top + rows_text(upto));
            }
            i = i + 1;
        }
        proof {
            assert(all.take(all.len() as int) =~= all);
        }
        ToolResult::done(output)
    }
}

} // verus!
