//! What holds of the skill tools as a whole.

use vstd::prelude::*;

#[allow(unused_imports)]
use super::dirs::{bad_slug, dir_of, root_of, valid_slug};
#[allow(unused_imports)]
use super::list::{
    hidden, installed, list_result, list_text, row_text, rows_text, skill_in, skills_in, slugs,
    DirEntryView, DirListingView, SkillRowView,
};
#[allow(unused_imports)]
use super::manage::{
    archive_found, archive_of, archive_placed, archive_step, in_support_dir, manage_step, or_else,
    patch_found, patch_gated, patch_step, stamped, write_found, write_placed, write_refusal,
    write_step, ARCHIVE_DIRNAME, ArchiveLookupView, PatchLookupView, TargetFormView,
    WriteLookupView, WriteReadyView, WriteTargetView,
};
#[allow(unused_imports)]
use super::stamp::stamp_chars;
#[allow(unused_imports)]
use super::tool::{refusal, StepView};
#[allow(unused_imports)]
use super::view::{files_text, page, parts, preview, shows_body, view_step, ViewLookupView};
#[allow(unused_imports)]
use crate::json::JsonView;
#[allow(unused_imports)]
use crate::order::{
    lemma_arranged_has_same_items, lemma_sort_order_exists, lemma_text_le_antisymmetric,
    sorted_order, sorts_before, text_le,
};
#[allow(unused_imports)]
use crate::path::{
    absolute, components, dot, dot_dot, join, kept, lemma_components_join, lemma_names_concat,
    lemma_names_of_plain, lies_in, names, no_parent,
};
#[allow(unused_imports)]
use crate::text::{
    decimal, find_char, lemma_find_char, lemma_occurs_in_part, lemma_occurs_self, occurs, occurs_at,
};

verus! {

/// Each name along a path is a part of its text.
proof fn lemma_name_occurs(s: Seq<char>, k: int)
    requires
        0 <= k < names(s).len(),
    ensures
        occurs(s, names(s)[k]),
    decreases s.len(),
{
    lemma_find_char(s, '/');
    match find_char(s, '/') {
        Some(i) => {
            let first = s.take(i);
            let rest = s.skip(i + 1);
            if k < kept(first).len() {
                assert(s.subrange(0, first.len() as int) =~= first);
                assert(occurs_at(s, names(s)[k], 0));
            } else {
                let j = k - kept(first).len();
                assert(names(s)[k] == names(rest)[j]);
                lemma_name_occurs(rest, j);
                let pat = names(s)[k];
                let at = choose|at: int| occurs_at(rest, pat, at);
                assert(s.subrange(at + i + 1, at + i + 1 + pat.len()) =~= rest.subrange(
                    at,
                    at + pat.len(),
                ));
                assert(occurs_at(s, pat, at + i + 1));
            }
        },
        None => {
            assert(s.subrange(0, s.len() as int) =~= s);
            assert(occurs_at(s, names(s)[k], 0));
        },
    }
}

/// The first name of a path that begins with a directory is that directory.
proof fn lemma_first_name(dir: Seq<char>, path: Seq<char>)
    requires
        dir.len() > 0,
        dir != dot(),
        !dir.contains('/'),
        dir.push('/').is_prefix_of(path),
    ensures
        names(path).len() > 0,
        names(path)[0] == dir,
        !absolute(path),
{
    let rest = path.skip(dir.len() + 1int);
    assert(path =~= dir.push('/') + rest);
    lemma_names_concat(dir, rest);
    lemma_names_of_plain(dir);
    assert(path[0] == dir.push('/')[0]);
    assert(dir.contains(dir[0]));
}

/// The first name of the path of a support file is one of the directories for
/// support files.
proof fn lemma_support_dir(file_path: Seq<char>)
    requires
        in_support_dir(file_path),
    ensures
        !absolute(file_path),
        names(file_path).len() > 0,
        names(file_path)[0] == "references"@ || names(file_path)[0] == "templates"@
            || names(file_path)[0] == "scripts"@,
{
    reveal_strlit("references/");
    reveal_strlit("templates/");
    reveal_strlit("scripts/");
    reveal_strlit("references");
    reveal_strlit("templates");
    reveal_strlit("scripts");
    assert("references/"@ =~= "references"@.push('/'));
    assert("templates/"@ =~= "templates"@.push('/'));
    assert("scripts/"@ =~= "scripts"@.push('/'));
    if "references/"@.is_prefix_of(file_path) {
        lemma_first_name("references"@, file_path);
    } else if "templates/"@.is_prefix_of(file_path) {
        lemma_first_name("templates"@, file_path);
    } else {
        lemma_first_name("scripts"@, file_path);
    }
}

/// A support file that is taken is written below its skill's directory, in
/// one of the directories for support files; its path goes through no parent
/// directory, and it is never the skill's `SKILL.md`.
pub proof fn law_support_file_stays_in_skill_dir(
    workspace: Seq<char>,
    slug: Seq<char>,
    file_path: Seq<char>,
    content: Seq<char>,
)
    requires
        write_refusal(file_path, content) is None,
    ensures
        ({
            let dir = dir_of(workspace, slug);
            let target = join(dir, file_path);
            &&& components(target) == components(dir) + names(file_path)
            &&& lies_in(target, dir)
            &&& no_parent(names(file_path))
            &&& names(file_path).len() > 0
            &&& names(file_path)[0] == "references"@ || names(file_path)[0] == "templates"@
                || names(file_path)[0] == "scripts"@
            &&& components(target) != components(join(dir, "SKILL.md"@))
        }),
{
    let dir = dir_of(workspace, slug);
    reveal_strlit("skills");
    lemma_support_dir(file_path);
    lemma_components_join(dir, file_path);
    assert(no_parent(names(file_path))) by {
        reveal_strlit("..");
        assert(".."@ =~= dot_dot());
        assert forall|k: int| 0 <= k < names(file_path).len() implies #[trigger] names(file_path)[k]
            != dot_dot() by {
            lemma_name_occurs(file_path, k);
        }
    }
    reveal_strlit("SKILL.md");
    reveal_strlit("references");
    reveal_strlit("templates");
    reveal_strlit("scripts");
    let md = "SKILL.md"@;
    assert(!absolute(md));
    assert(!md.contains('/'));
    lemma_components_join(dir, md);
    lemma_names_of_plain(md);
    assert(names(md)[0] == md);
    let n = components(dir).len() as int;
    assert(components(join(dir, md))[n] == md);
    assert(components(join(dir, file_path))[n] == names(file_path)[0]);
    assert("references"@[0] == 'r');
    assert("templates"@[0] == 't');
    assert("scripts"@[0] == 's');
    assert(md[0] == 'S');
}

/// A patch comes to be carried out exactly where the slug can name a skill,
/// the skill is there, content is given and the skill may be rewritten; what
/// is carried out is that content on that skill.
pub proof fn law_patch_is_carried_out_when(
    workspace: Seq<char>,
    cooldown_secs: u64,
    slug: Seq<char>,
    args: JsonView,
    present: bool,
    eligible: bool,
)
    ensures
        match patch_step(workspace, cooldown_secs, slug, args) {
            StepView::Done(_) => !valid_slug(slug),
            StepView::Next(lookup) => valid_slug(slug) && match patch_found(lookup, present) {
                Err(_) => present && args.text_member("content"@) is None,
                Ok(StepView::Done(_)) => !present,
                Ok(StepView::Next(gate)) => present && match patch_gated(gate, eligible) {
                    StepView::Done(_) => !eligible,
                    StepView::Next(write) => eligible && write.slug == slug && Some(write.content)
                        == args.text_member("content"@),
                },
            },
        },
{
}

/// A support file comes to be written exactly where the slug can name a
/// skill, the skill is there, a path and content are given, nothing speaks
/// against them, and neither the directory above it nor what stands at its
/// place leads out of the skill's directory; what is written is that content
/// under that path.
pub proof fn law_support_file_is_written_when(
    workspace: Seq<char>,
    slug: Seq<char>,
    args: JsonView,
    present: bool,
    skill_dir: Option<Seq<char>>,
    parent: Option<Seq<char>>,
    form: TargetFormView,
)
    ensures
        ({
            let dir = dir_of(workspace, slug);
            let base = or_else(skill_dir, dir);
            let inside = lies_in(or_else(parent, dir), base) && form.stays_in(base);
            match write_step(workspace, slug, args) {
                StepView::Done(_) => !valid_slug(slug),
                StepView::Next(lookup) => valid_slug(slug) && match write_found(lookup, present) {
                    Err(_) => present && (args.text_member("file_path"@) is None
                        || args.text_member("content"@) is None),
                    Ok(StepView::Done(_)) => !present || write_refusal(
                        args.text_member("file_path"@)->0,
                        args.text_member("content"@)->0,
                    ) is Some,
                    Ok(StepView::Next(target)) => present && match write_placed(
                        target,
                        skill_dir,
                        parent,
                        form,
                    ) {
                        StepView::Done(_) => !inside,
                        StepView::Next(ready) => inside && Some(ready.file_path)
                            == args.text_member("file_path"@) && Some(ready.content)
                            == args.text_member("content"@) && ready.target == join(
                            dir,
                            ready.file_path,
                        ),
                    },
                },
            }
        }),
{
}

/// A place that leads out of the skill's directory, or where nobody can tell,
/// is never written to.
pub proof fn law_link_that_leads_out_is_refused(
    w: WriteTargetView,
    skill_dir: Option<Seq<char>>,
    parent: Option<Seq<char>>,
    form: TargetFormView,
)
    requires
        form is Dangling || form is At && !lies_in(form->At_0, or_else(skill_dir, w.skill_dir)),
    ensures
        write_placed(w, skill_dir, parent, form) == StepView::<WriteReadyView>::Done(
            refusal("file_path escapes skill directory"@),
        ),
{
}

/// A link that leads to a place inside the skill's directory stands in the way
/// of nothing: what comes of the write is what comes of it where there is
/// nothing at the target.
pub proof fn law_link_that_stays_inside_is_as_none(
    w: WriteTargetView,
    skill_dir: Option<Seq<char>>,
    parent: Option<Seq<char>>,
    path: Seq<char>,
)
    requires
        lies_in(path, or_else(skill_dir, w.skill_dir)),
    ensures
        write_placed(w, skill_dir, parent, TargetFormView::At(path)) == write_placed(
            w,
            skill_dir,
            parent,
            TargetFormView::Absent,
        ),
{
}

/// A slug that cannot name a skill is answered alike, whatever is asked of it,
/// and no slug that can name one is refused for that.
pub proof fn law_bad_slug_is_refused_alike(
    workspace: Seq<char>,
    cooldown_secs: u64,
    slug: Seq<char>,
    args: JsonView,
)
    ensures
        !valid_slug(slug) ==> {
            &&& view_step(workspace, slug) == StepView::<ViewLookupView>::Done(
                refusal(bad_slug(slug)),
            )
            &&& patch_step(workspace, cooldown_secs, slug, args) == StepView::<
                PatchLookupView,
            >::Done(refusal(bad_slug(slug)))
            &&& write_step(workspace, slug, args) == StepView::<WriteLookupView>::Done(
                refusal(bad_slug(slug)),
            )
            &&& archive_step(workspace, slug) == StepView::<ArchiveLookupView>::Done(
                refusal(bad_slug(slug)),
            )
        },
        valid_slug(slug) ==> {
            &&& view_step(workspace, slug) is Next
            &&& patch_step(workspace, cooldown_secs, slug, args) is Next
            &&& write_step(workspace, slug, args) is Next
            &&& archive_step(workspace, slug) is Next
        },
{
}

/// The time that has to pass between two patches bears on patches alone.
pub proof fn law_cooldown_gates_patches_alone(
    workspace: Seq<char>,
    a: u64,
    b: u64,
    action: Seq<char>,
    slug: Seq<char>,
    args: JsonView,
)
    requires
        action != "patch"@,
    ensures
        manage_step(workspace, a, action, slug, args) == manage_step(
            workspace,
            b,
            action,
            slug,
            args,
        ),
{
}

/// An archived skill becomes a direct child of the archive, which is itself a
/// direct child of the skills directory. Where the skill's own name is taken
/// there, it gets another.
pub proof fn law_archive_takes_a_free_place(
    workspace: Seq<char>,
    slug: Seq<char>,
    stamp: Seq<char>,
)
    requires
        valid_slug(slug),
        stamp_chars(stamp),
    ensures
        ({
            let lookup = archive_step(workspace, slug)->Next_0;
            let plan = archive_found(lookup, true)->Next_0;
            let plain = archive_placed(plan, None);
            let renamed = archive_placed(plan, Some(stamp));
            let archive = components(archive_of(workspace));
            &&& archive == components(root_of(workspace)).push(ARCHIVE_DIRNAME@)
            &&& plain.from == dir_of(workspace, slug)
            &&& renamed.from == dir_of(workspace, slug)
            &&& components(plain.to) == archive.push(slug)
            &&& components(renamed.to) == archive.push(stamped(slug, stamp))
            &&& components(plain.to) != components(renamed.to)
        }),
{
    reveal_strlit("skills");
    reveal_strlit(".archive");
    reveal_strlit("-");
    let base = root_of(workspace);
    let name = ARCHIVE_DIRNAME@;
    assert(!name.contains('/'));
    lemma_components_join(base, name);
    lemma_names_of_plain(name);
    assert(name[1] == 'a');
    assert(components(base) + seq![name] =~= components(base).push(name));
    let archive = archive_of(workspace);
    lemma_child(archive, slug);
    let other = stamped(slug, stamp);
    assert(other[0] == slug[0]);
    assert(!other.contains('/')) by {
        if other.contains('/') {
            let i = choose|i: int| 0 <= i < other.len() && other[i] == '/';
            let n = slug.len() as int;
            if i < n {
                assert(slug.contains(slug[i]));
            } else if i > n {
                assert(other[i] == stamp[i - n - 1]);
            }
        }
    }
    lemma_child(archive, other);
    assert(components(archive).push(slug).last() == slug);
    assert(components(archive).push(other).last() == other);
    assert(other.len() > slug.len());
}

/// A plain name below a directory is a child of it.
proof fn lemma_child(dir: Seq<char>, name: Seq<char>)
    requires
        dir.len() > 0,
        name.len() > 0,
        name[0] != '.',
        !name.contains('/'),
    ensures
        components(join(dir, name)) == components(dir).push(name),
{
    assert(!absolute(name)) by {
        assert(name.contains(name[0]));
    }
    lemma_components_join(dir, name);
    lemma_names_of_plain(name);
    assert(dot()[0] == '.');
    assert(components(dir) + seq![name] =~= components(dir).push(name));
}

/// A hidden entry of the skills directory is as good as not there.
pub proof fn law_hidden_entries_are_not_listed(entries: Seq<DirEntryView>, i: int)
    requires
        0 <= i < entries.len(),
        hidden(entries[i].name),
    ensures
        list_result(DirListingView::Entries(entries)) == list_result(
            DirListingView::Entries(entries.remove(i)),
        ),
{
    lemma_skip_entry(entries, i);
}

/// What is archived is not listed: the archive is a hidden entry.
pub proof fn law_archive_is_hidden()
    ensures
        hidden(ARCHIVE_DIRNAME@),
{
    reveal_strlit(".archive");
}

proof fn lemma_skip_entry(entries: Seq<DirEntryView>, i: int)
    requires
        0 <= i < entries.len(),
        skill_in(entries[i]) is None,
    ensures
        skills_in(entries.remove(i)) == skills_in(entries),
    decreases entries.len(),
{
    let less = entries.remove(i);
    if i == entries.len() - 1 {
        assert(less =~= entries.drop_last());
    } else {
        assert(less.last() == entries.last());
        assert(less.drop_last() =~= entries.drop_last().remove(i));
        lemma_skip_entry(entries.drop_last(), i);
    }
}

/// No two entries have the same name.
pub open spec fn distinct_names(entries: Seq<DirEntryView>) -> bool {
    forall|i: int, j: int|
        0 <= i < j < entries.len() ==> #[trigger] entries[i].name != #[trigger] entries[j].name
}

/// The rows come in strictly increasing order of their slugs.
spec fn strictly_sorted(rows: Seq<SkillRowView>) -> bool {
    forall|i: int, j: int|
        0 <= i < j < rows.len() ==> text_le(#[trigger] rows[i].slug, #[trigger] rows[j].slug)
            && rows[i].slug != rows[j].slug
}

/// The list does not depend on the order in which the directory gives its
/// entries out, as long as no name occurs twice.
pub proof fn law_list_ignores_directory_order(a: Seq<DirEntryView>, b: Seq<DirEntryView>)
    requires
        a.len() <= usize::MAX,
        b.len() <= usize::MAX,
        distinct_names(a),
        distinct_names(b),
        forall|e: DirEntryView| a.contains(e) <==> b.contains(e),
    ensures
        list_result(DirListingView::Entries(a)) == list_result(DirListingView::Entries(b)),
{
    lemma_installed(a);
    lemma_installed(b);
    let x = installed(a);
    let y = installed(b);
    assert forall|row: SkillRowView| x.contains(row) <==> y.contains(row) by {
        lemma_installed_has(a, row);
        lemma_installed_has(b, row);
        if held(a, row) {
            let i = choose|i: int| 0 <= i < a.len() && skill_in(a[i]) == Some(row);
            assert(a.contains(a[i]));
            let j = choose|j: int| 0 <= j < b.len() && b[j] == a[i];
            assert(skill_in(b[j]) == Some(row));
        }
        if held(b, row) {
            let i = choose|i: int| 0 <= i < b.len() && skill_in(b[i]) == Some(row);
            assert(b.contains(b[i]));
            let j = choose|j: int| 0 <= j < a.len() && a[j] == b[i];
            assert(skill_in(a[j]) == Some(row));
        }
    }
    lemma_same_rows(x, y);
}

/// Some entry holds the skill `row`.
spec fn held(entries: Seq<DirEntryView>, row: SkillRowView) -> bool {
    exists|i: int| 0 <= i < entries.len() && skill_in(#[trigger] entries[i]) == Some(row)
}

proof fn lemma_skills_in_has(entries: Seq<DirEntryView>, row: SkillRowView)
    ensures
        skills_in(entries).contains(row) <==> held(entries, row),
        skills_in(entries).len() <= entries.len(),
    decreases entries.len(),
{
    if entries.len() > 0 {
        let init = entries.drop_last();
        let rows = skills_in(entries);
        lemma_skills_in_has(init, row);
        if rows.contains(row) {
            let k = choose|k: int| 0 <= k < rows.len() && rows[k] == row;
            if k < skills_in(init).len() {
                assert(skills_in(init)[k] == row);
                let i = choose|i: int| 0 <= i < init.len() && skill_in(init[i]) == Some(row);
                assert(entries[i] == init[i]);
            } else {
                assert(skill_in(entries[entries.len() - 1]) == Some(row));
            }
        }
        if held(entries, row) {
            let i = choose|i: int| 0 <= i < entries.len() && skill_in(entries[i]) == Some(row);
            if i < init.len() {
                assert(init[i] == entries[i]);
                let k = choose|k: int|
                    0 <= k < skills_in(init).len() && skills_in(init)[k] == row;
                assert(rows[k] == row);
            } else {
                assert(rows.last() == row);
            }
        }
    }
}

proof fn lemma_slugs_distinct(entries: Seq<DirEntryView>, i: int, j: int)
    requires
        distinct_names(entries),
        0 <= i < j < skills_in(entries).len(),
    ensures
        skills_in(entries)[i].slug != skills_in(entries)[j].slug,
    decreases entries.len(),
{
    let init = entries.drop_last();
    assert(distinct_names(init)) by {
        assert forall|p: int, q: int| 0 <= p < q < init.len() implies #[trigger] init[p].name
            != #[trigger] init[q].name by {
            assert(init[p] == entries[p] && init[q] == entries[q]);
        }
    }
    let rows = skills_in(entries);
    if j < skills_in(init).len() {
        assert(rows[i] == skills_in(init)[i] && rows[j] == skills_in(init)[j]);
        lemma_slugs_distinct(init, i, j);
    } else {
        let row = skills_in(init)[i];
        assert(skills_in(init).contains(row));
        lemma_skills_in_has(init, row);
        let p = choose|p: int| 0 <= p < init.len() && skill_in(init[p]) == Some(row);
        assert(init[p] == entries[p]);
        assert(entries[p].name != entries[entries.len() - 1].name);
    }
}

proof fn lemma_installed(entries: Seq<DirEntryView>)
    requires
        entries.len() <= usize::MAX,
        distinct_names(entries),
    ensures
        strictly_sorted(installed(entries)),
{
    let rows = skills_in(entries);
    let keys = slugs(rows);
    let order = sorted_order(keys);
    lemma_skills_in_has(entries, arbitrary());
    lemma_sort_order_exists(keys);
    let out = installed(entries);
    assert forall|i: int, j: int| 0 <= i < j < out.len() implies text_le(
        #[trigger] out[i].slug,
        #[trigger] out[j].slug,
    ) && out[i].slug != out[j].slug by {
        let p = order[i] as int;
        let q = order[j] as int;
        assert(sorts_before(keys, p, q));
        assert(keys[p] == out[i].slug && keys[q] == out[j].slug);
        if p < q {
            lemma_slugs_distinct(entries, p, q);
        } else if q < p {
            lemma_slugs_distinct(entries, q, p);
        }
    }
}

proof fn lemma_installed_has(entries: Seq<DirEntryView>, row: SkillRowView)
    requires
        entries.len() <= usize::MAX,
    ensures
        installed(entries).contains(row) <==> held(entries, row),
{
    let rows = skills_in(entries);
    let keys = slugs(rows);
    lemma_skills_in_has(entries, row);
    lemma_sort_order_exists(keys);
    lemma_arranged_has_same_items(rows, sorted_order(keys), keys, row);
}

/// Two lists of rows in strictly increasing order with the same rows are the
/// same.
proof fn lemma_same_rows(x: Seq<SkillRowView>, y: Seq<SkillRowView>)
    requires
        strictly_sorted(x),
        strictly_sorted(y),
        forall|row: SkillRowView| x.contains(row) <==> y.contains(row),
    ensures
        x == y,
    decreases x.len(),
{
    if x.len() == 0 {
        if y.len() > 0 {
            assert(y.contains(y[0]));
        }
    } else {
        assert(x.contains(x.last()));
        let q = choose|q: int| 0 <= q < y.len() && y[q] == x.last();
        assert(y.contains(y.last()));
        let p = choose|p: int| 0 <= p < x.len() && x[p] == y.last();
        if q < y.len() - 1 && p < x.len() - 1 {
            assert(text_le(y[q].slug, y[y.len() - 1].slug));
            assert(text_le(x[p].slug, x[x.len() - 1].slug));
            lemma_text_le_antisymmetric(x.last().slug, y.last().slug);
        }
        assert(x.last() == y.last());
        let xs = x.drop_last();
        let ys = y.drop_last();
        assert forall|row: SkillRowView| xs.contains(row) <==> ys.contains(row) by {
            if xs.contains(row) {
                let i = choose|i: int| 0 <= i < xs.len() && xs[i] == row;
                assert(x[i] == row);
                assert(x.contains(row));
                let j = choose|j: int| 0 <= j < y.len() && y[j] == row;
                assert(x[i].slug != x[x.len() - 1].slug);
                assert(ys[j] == row);
            }
            if ys.contains(row) {
                let i = choose|i: int| 0 <= i < ys.len() && ys[i] == row;
                assert(y[i] == row);
                assert(y.contains(row));
                let j = choose|j: int| 0 <= j < x.len() && x[j] == row;
                assert(y[i].slug != y[y.len() - 1].slug);
                assert(xs[j] == row);
            }
        }
        lemma_same_rows(xs, ys);
        assert(x =~= xs.push(x.last()));
        assert(y =~= ys.push(y.last()));
    }
}

/// A text stands in what is put around it.
proof fn lemma_part(whole: Seq<char>, before: Seq<char>, part: Seq<char>, after: Seq<char>)
    requires
        whole =~= before + part + after,
    ensures
        occurs(whole, part),
{
    lemma_occurs_self(part);
    lemma_occurs_in_part(before, part, after, part);
}

proof fn lemma_row_shows(row: SkillRowView)
    ensures
        occurs(row_text(row), row.slug),
        occurs(row_text(row), row.version),
        occurs(row_text(row), row.description),
        occurs(row_text(row), row.name),
{
    let shown = if row.name.len() == 0 {
        row.slug
    } else {
        row.name
    };
    let a = "- "@ + shown + " v"@;
    let b = a + row.version + " ("@;
    let line = b + row.slug + ")\n"@;
    let more = "    "@ + row.description + "\n"@;
    let none = Seq::<char>::empty();
    lemma_part(line, b, row.slug, ")\n"@);
    lemma_part(line, a, row.version, " ("@ + row.slug + ")\n"@);
    lemma_part(line, "- "@, shown, " v"@ + row.version + " ("@ + row.slug + ")\n"@);
    lemma_part(more, "    "@, row.description, "\n"@);
    lemma_part(line, none, none, line);
    if row.description.len() == 0 {
        assert(row.description =~= none);
    } else {
        lemma_occurs_in_part(none, line, more, row.slug);
        lemma_occurs_in_part(none, line, more, row.version);
        lemma_occurs_in_part(none, line, more, shown);
        lemma_occurs_in_part(line, more, none, row.description);
        lemma_occurs_in_part(none, line, more, none);
        assert(none + line + more =~= line + more);
        assert(line + more + none =~= line + more);
    }
    if row.name.len() == 0 {
        assert(row.name =~= none);
    }
}

proof fn lemma_rows_show(rows: Seq<SkillRowView>, i: int)
    requires
        0 <= i < rows.len(),
    ensures
        occurs(rows_text(rows), rows[i].slug),
        occurs(rows_text(rows), rows[i].version),
        occurs(rows_text(rows), rows[i].description),
        occurs(rows_text(rows), rows[i].name),
    decreases rows.len(),
{
    let init = rows_text(rows.drop_last());
    let last = row_text(rows.last());
    let none = Seq::<char>::empty();
    let row = rows[i];
    assert(init + last + none =~= init + last);
    assert(none + init + last =~= init + last);
    if i == rows.len() - 1 {
        lemma_row_shows(row);
        lemma_occurs_in_part(init, last, none, row.slug);
        lemma_occurs_in_part(init, last, none, row.version);
        lemma_occurs_in_part(init, last, none, row.description);
        lemma_occurs_in_part(init, last, none, row.name);
    } else {
        assert(rows.drop_last()[i] == row);
        lemma_rows_show(rows.drop_last(), i);
        lemma_occurs_in_part(none, init, last, row.slug);
        lemma_occurs_in_part(none, init, last, row.version);
        lemma_occurs_in_part(none, init, last, row.description);
        lemma_occurs_in_part(none, init, last, row.name);
    }
}

/// The list shows the slug, the version, the name and the description of every
/// skill in it.
pub proof fn law_list_shows_every_skill(rows: Seq<SkillRowView>, i: int)
    requires
        0 <= i < rows.len(),
    ensures
        occurs(list_text(rows), rows[i].slug),
        occurs(list_text(rows), rows[i].version),
        occurs(list_text(rows), rows[i].description),
        occurs(list_text(rows), rows[i].name),
{
    let top = decimal(rows.len()) + " installed skills:\n\n"@;
    let all = rows_text(rows);
    let none = Seq::<char>::empty();
    lemma_rows_show(rows, i);
    lemma_occurs_in_part(top, all, none, rows[i].slug);
    lemma_occurs_in_part(top, all, none, rows[i].version);
    lemma_occurs_in_part(top, all, none, rows[i].description);
    lemma_occurs_in_part(top, all, none, rows[i].name);
    assert(top + all + none =~= top + all);
}

proof fn lemma_files_show(files: Seq<Seq<char>>, i: int)
    requires
        0 <= i < files.len(),
    ensures
        occurs(files_text(files), files[i]),
    decreases files.len(),
{
    let init = files_text(files.drop_last());
    let last = "- "@ + files.last() + "\n"@;
    let none = Seq::<char>::empty();
    if i == files.len() - 1 {
        lemma_part(last, "- "@, files[i], "\n"@);
        lemma_occurs_in_part(init, last, none, files[i]);
        assert(init + last + none =~= init + last);
    } else {
        assert(files.drop_last()[i] == files[i]);
        lemma_files_show(files.drop_last(), i);
        lemma_occurs_in_part(none, init, last, files[i]);
        assert(none + init + last =~= init + last);
    }
}

/// The page of a skill shows its slug, its front matter, the preview of its
/// body, unless that is blank, and every support file.
pub proof fn law_page_shows_the_skill(
    slug: Seq<char>,
    md: Seq<char>,
    files: Seq<Seq<char>>,
    i: int,
)
    ensures
        occurs(page(slug, md, files), slug),
        occurs(page(slug, md, files), parts(md).0),
        shows_body(parts(md).1) ==> occurs(page(slug, md, files), preview(parts(md).1)),
        0 <= i < files.len() ==> occurs(page(slug, md, files), files[i]),
{
    let (front, body) = parts(md);
    let none = Seq::<char>::empty();
    let a = "# Skill '"@ + slug + "'\n\n## Front-matter\n\n```yaml\n"@;
    let top = a + front + "\n```\n"@;
    let shown = "\n## Body (Markdown)\n\n"@ + preview(body) + "\n"@;
    let middle = if shows_body(body) {
        top + shown
    } else {
        top
    };
    let head = middle + "\n## Support files\n"@;
    let tail = files_text(files);
    lemma_part(
        top,
        "# Skill '"@,
        slug,
        "'\n\n## Front-matter\n\n```yaml\n"@ + front + "\n```\n"@,
    );
    lemma_part(top, a, front, "\n```\n"@);
    if shows_body(body) {
        lemma_part(shown, "\n## Body (Markdown)\n\n"@, preview(body), "\n"@);
        lemma_occurs_in_part(top, shown, none, preview(body));
        lemma_occurs_in_part(none, top, shown, slug);
        lemma_occurs_in_part(none, top, shown, front);
        assert(top + shown + none =~= middle);
        assert(none + top + shown =~= middle);
        assert(occurs(middle, preview(body)));
    }
    assert(occurs(middle, slug) && occurs(middle, front));
    if files.len() > 0 {
        let rest = "\n## Support files\n"@ + tail;
        assert(none + middle + rest =~= head + tail);
        lemma_occurs_in_part(none, middle, rest, slug);
        lemma_occurs_in_part(none, middle, rest, front);
        if shows_body(body) {
            lemma_occurs_in_part(none, middle, rest, preview(body));
        }
        if 0 <= i < files.len() {
            lemma_files_show(files, i);
            lemma_occurs_in_part(head, tail, none, files[i]);
            assert(head + tail + none =~= head + tail);
        }
    }
}

} // verus!
