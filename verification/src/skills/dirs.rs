//! Where skills live.

use vstd::prelude::*;

use crate::path::join_path;
#[allow(unused_imports)]
use crate::path::{
    absolute, components, dot, join, lemma_components_join, lemma_names_of_plain, lies_in,
};
use crate::text::{contains_char, contains_text, starts_with};
#[allow(unused_imports)]
use crate::text::occurs;

verus! {

/// The directory that holds the skills of a workspace.
pub open spec fn root_of(workspace: Seq<char>) -> Seq<char> {
    join(workspace, "skills"@)
}

/// The directory that holds the skills of a workspace.
pub fn skills_root(workspace_dir: &str) -> (out: String)
    ensures
        out@ == root_of(workspace_dir@),
{
    join_path(workspace_dir, "skills")
}

/// A text that can name a skill: one directory name that is not hidden.
pub open spec fn valid_slug(slug: Seq<char>) -> bool {
    &&& slug.len() > 0
    &&& slug[0] != '.'
    &&& !slug.contains('/')
    &&& !slug.contains('\\')
    &&& !occurs(slug, ".."@)
}

/// The directory of the skill `slug`.
pub open spec fn dir_of(workspace: Seq<char>, slug: Seq<char>) -> Seq<char> {
    join(root_of(workspace), slug)
}

/// What is said of a text that cannot name a skill.
pub open spec fn bad_slug(slug: Seq<char>) -> Seq<char> {
    "Invalid skill slug: "@ + slug
}

/// The directory of the skill `slug`; what to say where `slug` cannot name
/// one.
pub fn resolve_skill_dir(workspace_dir: &str, slug: &str) -> (out: Result<String, String>)
    ensures
        match out {
            Ok(dir) => valid_slug(slug@) && dir@ == dir_of(workspace_dir@, slug@),
            Err(e) => !valid_slug(slug@) && e@ == bad_slug(slug@),
        },
{
    proof {
        reveal_strlit(".");
        assert("."@ =~= dot());
        if slug@.len() > 0 {
            assert(slug@.take(1) =~= seq![slug@[0]]);
            assert(seq![slug@[0]][0] == slug@[0]);
            assert(dot()[0] == '.');
        }
    }
    if slug.is_empty() || contains_text(slug, "..") || contains_char(slug, '/') || contains_char(
        slug,
        '\\',
    ) || starts_with(slug, ".") {
        let mut e = "Invalid skill slug: ".to_owned();
        e.append(slug);
        return Err(e);
    }
    let root = skills_root(workspace_dir);
    Ok(join_path(root.as_str(), slug))
}

/// The skills directory has a name, whatever the workspace is.
proof fn lemma_root_is_not_empty(workspace: Seq<char>)
    ensures
        root_of(workspace).len() > 0,
{
    reveal_strlit("skills");
}

/// The directory of a skill is a direct child of the skills directory, named
/// by the slug.
pub proof fn law_skill_dir_is_child_of_root(workspace: Seq<char>, slug: Seq<char>)
    requires
        valid_slug(slug),
    ensures
        components(dir_of(workspace, slug)) == components(root_of(workspace)).push(slug),
        lies_in(dir_of(workspace, slug), root_of(workspace)),
{
    lemma_root_is_not_empty(workspace);
    assert(!absolute(slug)) by {
        if absolute(slug) {
            assert(slug.contains(slug[0]));
        }
    }
    lemma_components_join(root_of(workspace), slug);
    lemma_names_of_plain(slug);
    assert(slug != dot()) by {
        assert(dot()[0] == '.');
    }
    assert(components(root_of(workspace)) + seq![slug] =~= components(root_of(workspace)).push(
        slug,
    ));
}

/// Two skills never share a directory.
pub proof fn law_skill_dirs_are_distinct(workspace: Seq<char>, a: Seq<char>, b: Seq<char>)
    requires
        valid_slug(a),
        valid_slug(b),
        a != b,
    ensures
        components(dir_of(workspace, a)) != components(dir_of(workspace, b)),
{
    law_skill_dir_is_child_of_root(workspace, a);
    law_skill_dir_is_child_of_root(workspace, b);
    let base = components(root_of(workspace));
    assert(base.push(a).last() == a);
    assert(base.push(b).last() == b);
}

} // verus!
