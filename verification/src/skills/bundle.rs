//! Bundles of skills: where each has its directory.

use vstd::prelude::*;

use crate::config::{Config, SkillBundleConfig};
use crate::path::{join_path, normalize_path, path_lies_in};
#[allow(unused_imports)]
use crate::path::{
    absolute, components, dot, dot_dot, join, lemma_names_join, lemma_names_of_plain,
    lemma_normalized, lemma_resolve_append, lies_in, names, no_parent, normalized, resolve,
    root,
};
use crate::text::{same_text, trim_of};
#[allow(unused_imports)]
use crate::text::{opt_text, trim};

verus! {

/// A bundle as it is shown.
#[derive(Debug)]
pub struct BundleSummary {
    pub alias: String,
    pub directory: String,
    /// The skills that the bundle is narrowed to.
    pub included: Vec<String>,
    /// The skills that the bundle leaves out.
    pub exclude: Vec<String>,
}

/// What can be wrong with a bundle.
#[derive(Debug)]
pub enum BundleError {
    UnknownBundle(String),
    DirectoryEscapesShared { path: String, shared: String },
    DirectoryCollision { path: String, other: String },
}

/// What can be wrong with a bundle, with texts as sequences.
pub enum BundleErrorView {
    UnknownBundle(Seq<char>),
    DirectoryEscapesShared { path: Seq<char>, shared: Seq<char> },
    DirectoryCollision { path: Seq<char>, other: Seq<char> },
}

impl View for BundleError {
    type V = BundleErrorView;

    open spec fn view(&self) -> BundleErrorView {
        match *self {
            BundleError::UnknownBundle(alias) => BundleErrorView::UnknownBundle(alias@),
            BundleError::DirectoryEscapesShared { path, shared } =>
            BundleErrorView::DirectoryEscapesShared { path: path@, shared: shared@ },
            BundleError::DirectoryCollision { path, other } =>
            BundleErrorView::DirectoryCollision { path: path@, other: other@ },
        }
    }
}

impl BundleErrorView {
    /// What the error says.
    pub open spec fn text(self) -> Seq<char> {
        match self {
            BundleErrorView::UnknownBundle(alias) => "skill bundle '"@ + alias
                + "' is not configured"@,
            BundleErrorView::DirectoryEscapesShared { path, shared } => "skill-bundle directory '"@
                + path + "' escapes the shared workspace at '"@ + shared
                + "'; bundles must stay inside `<install>/shared/`"@,
            BundleErrorView::DirectoryCollision { path, other } => "skill-bundle directory '"@
                + path + "' is already claimed by bundle '"@ + other
                + "'; each bundle must own a unique directory"@,
        }
    }
}

impl BundleError {
    /// What the error says.
    pub fn message(&self) -> (out: String)
        ensures
            out@ == self@.text(),
    {
        match self {
            BundleError::UnknownBundle(alias) => {
                let mut out = "skill bundle '".to_owned();
                out.append(alias.as_str());
                out.append("' is not configured");
                out
            },
            BundleError::DirectoryEscapesShared { path, shared } => {
                let mut out = "skill-bundle directory '".to_owned();
                out.append(path.as_str());
                out.append("' escapes the shared workspace at '");
                out.append(shared.as_str());
                out.append("'; bundles must stay inside `<install>/shared/`");
                out
            },
            BundleError::DirectoryCollision { path, other } => {
                let mut out = "skill-bundle directory '".to_owned();
                out.append(path.as_str());
                out.append("' is already claimed by bundle '");
                out.append(other.as_str());
                out.append("'; each bundle must own a unique directory");
                out
            },
        }
    }
}

/// The directory that all bundles stay inside.
pub open spec fn shared_of(install_root: Seq<char>) -> Seq<char> {
    join(install_root, "shared"@)
}

/// The directory of a bundle that sets none.
pub open spec fn default_of(install_root: Seq<char>, alias: Seq<char>) -> Seq<char> {
    join(join(shared_of(install_root), "skills"@), alias)
}

/// The directory of a bundle: what it sets, seen from the install root; the
/// default where it sets nothing, or white space alone.
pub open spec fn directory_of(
    install_root: Seq<char>,
    alias: Seq<char>,
    configured: Option<Seq<char>>,
) -> Seq<char> {
    match configured {
        Some(raw) => if trim(raw).len() > 0 {
            join(install_root, trim(raw))
        } else {
            default_of(install_root, alias)
        },
        None => default_of(install_root, alias),
    }
}

/// The directory of a bundle that sets none.
pub fn default_directory(install_root: &str, alias: &str) -> (out: String)
    ensures
        out@ == default_of(install_root@, alias@),
{
    let shared = join_path(install_root, "shared");
    let skills = join_path(shared.as_str(), "skills");
    join_path(skills.as_str(), alias)
}

/// The directory of a bundle with this configuration.
fn bundle_directory(bundle: &SkillBundleConfig, install_root: &str, alias: &str) -> (out: String)
    ensures
        out@ == directory_of(install_root@, alias@, opt_text(bundle.directory)),
{
    if let Some(raw) = &bundle.directory {
        let set = trim_of(raw.as_str());
        if !set.as_str().is_empty() {
            return join_path(install_root, set.as_str());
        }
    }
    default_directory(install_root, alias)
}

/// The directory of the bundle `alias`; an error where there is no such
/// bundle.
pub fn resolve_directory(config: &Config, install_root: &str, alias: &str) -> (out: Result<
    String,
    BundleError,
>)
    requires
        config.wf(),
    ensures
        match out {
            Ok(dir) => config.skill_bundles@.contains_key(alias@) && dir@ == directory_of(
                install_root@,
                alias@,
                opt_text(config.skill_bundles@[alias@].directory),
            ),
            Err(e) => !config.skill_bundles@.contains_key(alias@) && e@
                == BundleErrorView::UnknownBundle(alias@),
        },
{
    match config.skill_bundles.get(alias) {
        Some(bundle) => Ok(bundle_directory(bundle, install_root, alias)),
        None => Err(BundleError::UnknownBundle(alias.to_owned())),
    }
}

/// The path stays inside the shared directory, with every `..` in either
/// worked out on the text alone.
pub open spec fn stays_shared(path: Seq<char>, install_root: Seq<char>) -> bool {
    lies_in(normalized(path), normalized(shared_of(install_root)))
}

/// Rejects a directory outside the shared one.
pub fn validate_directory(path: &str, install_root: &str) -> (out: Result<(), BundleError>)
    ensures
        match out {
            Ok(_) => stays_shared(path@, install_root@),
            Err(e) => !stays_shared(path@, install_root@) && e@
                == (BundleErrorView::DirectoryEscapesShared {
                path: normalized(path@),
                shared: normalized(shared_of(install_root@)),
            }),
        },
{
    let shared = join_path(install_root, "shared");
    let inner = normalize_path(path);
    let outer = normalize_path(shared.as_str());
    if path_lies_in(inner.as_str(), outer.as_str()) {
        Ok(())
    } else {
        Err(BundleError::DirectoryEscapesShared { path: inner, shared: outer })
    }
}

/// The place of the bundle at position `i`: its directory with every `..`
/// worked out.
pub open spec fn place_of(
    entries: Seq<(Seq<char>, SkillBundleConfig)>,
    install_root: Seq<char>,
    i: int,
) -> Seq<char> {
    normalized(directory_of(install_root, entries[i].0, opt_text(entries[i].1.directory)))
}

/// Among the first `n` bundles, no two have the same place.
pub open spec fn places_distinct(
    entries: Seq<(Seq<char>, SkillBundleConfig)>,
    install_root: Seq<char>,
    n: int,
) -> bool {
    forall|i: int, j: int|
        0 <= i < j < n ==> #[trigger] place_of(entries, install_root, i) != #[trigger] place_of(
            entries,
            install_root,
            j,
        )
}

/// The bundle at `j` is the first, in the order of the configuration, whose
/// place an earlier one has; that one is at `i`.
pub open spec fn first_collision(
    entries: Seq<(Seq<char>, SkillBundleConfig)>,
    install_root: Seq<char>,
    i: int,
    j: int,
) -> bool {
    &&& 0 <= i < j < entries.len()
    &&& places_distinct(entries, install_root, j)
    &&& place_of(entries, install_root, i) == place_of(entries, install_root, j)
}

/// The error for a bundle at `j` that takes the place of the one at `i`.
pub open spec fn collision(
    entries: Seq<(Seq<char>, SkillBundleConfig)>,
    install_root: Seq<char>,
    i: int,
    j: int,
) -> BundleErrorView {
    BundleErrorView::DirectoryCollision {
        path: place_of(entries, install_root, j),
        other: entries[i].0,
    }
}

/// Checks that no two bundles have the same directory. The error names the
/// first that takes the place of an earlier one.
pub fn validate_uniqueness(config: &Config, install_root: &str) -> (out: Result<(), BundleError>)
    requires
        config.wf(),
    ensures
        match out {
            Ok(_) => places_distinct(
                config.skill_bundles.entries(),
                install_root@,
                config.skill_bundles.entries().len() as int,
            ),
            Err(e) => exists|i: int, j: int|
                #[trigger] first_collision(
                    config.skill_bundles.entries(),
                    install_root@,
                    i,
                    j,
                ) && e@ == collision(config.skill_bundles.entries(), install_root@, i, j),
        },
{
    let ghost entries = config.skill_bundles.entries();
    let mut seen: Vec<String> = Vec::new();
    let mut n: usize = 0;
    while n < config.skill_bundles.len()
        invariant
            config.wf(),
            entries == config.skill_bundles.entries(),
            n <= entries.len(),
            seen@.len() == n,
            forall|k: int|
                0 <= k < n ==> #[trigger] seen@[k]@ == place_of(entries, install_root@, k),
            places_distinct(entries, install_root@, n as int),
        decreases entries.len() - n,
    {
        let alias: &String = config.skill_bundles.alias_at(n);
        let bundle: &SkillBundleConfig = config.skill_bundles.value_at(n);
        let dir = bundle_directory(bundle, install_root, alias.as_str());
        let place = normalize_path(dir.as_str());
        let mut k: usize = 0;
        while k < seen.len()
            invariant
                config.wf(),
                entries == config.skill_bundles.entries(),
                n < entries.len(),
                seen@.len() == n,
                k <= n,
                forall|m: int|
                    0 <= m < n ==> #[trigger] seen@[m]@ == place_of(entries, install_root@, m),
                place@ == place_of(entries, install_root@, n as int),
                places_distinct(entries, install_root@, n as int),
                forall|m: int|
                    0 <= m < k ==> #[trigger] place_of(entries, install_root@, m) != place_of(
                        entries,
                        install_root@,
                        n as int,
                    ),
            decreases seen@.len() - k,
        {
            if same_text(seen[k].as_str(), place.as_str()) {
                proof {
                    assert(seen@[k as int]@ == place@);
                    assert(first_collision(entries, install_root@, k as int, n as int));
                }
                let other: &String = config.skill_bundles.alias_at(k);
                return Err(BundleError::DirectoryCollision { path: place, other: other.clone() });
            }
            proof {
                assert(seen@[k as int]@ == place_of(entries, install_root@, k as int));
            }
            k = k + 1;
        }
        seen.push(place);
        n = n + 1;
    }
    Ok(())
}

// ---------------------------------------------------------------------------
// Laws
// ---------------------------------------------------------------------------

/// An alias that leads downwards: a relative path without a `..` in it.
pub open spec fn leads_down(alias: Seq<char>) -> bool {
    !absolute(alias) && no_parent(names(alias))
}

/// A bundle that sets nothing and one that sets white space alone have the
/// same directory: the default one.
pub proof fn law_blank_directory_is_the_default(
    install_root: Seq<char>,
    alias: Seq<char>,
    blank: Seq<char>,
)
    requires
        trim(blank).len() == 0,
    ensures
        directory_of(install_root, alias, Some(blank)) == default_of(install_root, alias),
        directory_of(install_root, alias, None) == default_of(install_root, alias),
{
}

/// A directory that is set as an absolute path is taken as it is.
pub proof fn law_absolute_directory_passes_through(
    install_root: Seq<char>,
    alias: Seq<char>,
    raw: Seq<char>,
)
    requires
        absolute(trim(raw)),
    ensures
        directory_of(install_root, alias, Some(raw)) == trim(raw),
{
}

/// A directory that is set as a relative path is seen from the install root.
pub proof fn law_relative_directory_is_below_the_root(
    install_root: Seq<char>,
    alias: Seq<char>,
    raw: Seq<char>,
)
    requires
        trim(raw).len() > 0,
        !absolute(trim(raw)),
    ensures
        names(directory_of(install_root, alias, Some(raw))) == names(install_root) + names(
            trim(raw),
        ),
        absolute(directory_of(install_root, alias, Some(raw))) == absolute(install_root),
{
    lemma_names_join(install_root, trim(raw));
}

/// The names along the default directory, and those along the shared one.
proof fn lemma_default_names(install_root: Seq<char>, alias: Seq<char>)
    requires
        leads_down(alias),
    ensures
        ({
            let from_root = absolute(install_root);
            let base = resolve(from_root, names(install_root));
            let shared = base.push("shared"@);
            &&& resolve(from_root, names(shared_of(install_root))) == shared
            &&& resolve(from_root, names(default_of(install_root, alias))) == shared.push(
                "skills"@,
            ) + names(alias)
            &&& absolute(shared_of(install_root)) == absolute(install_root)
            &&& absolute(default_of(install_root, alias)) == absolute(install_root)
        }),
{
    reveal_strlit("shared");
    reveal_strlit("skills");
    let shared = "shared"@;
    let skills = "skills"@;
    assert(shared[0] == 's' && skills[0] == 's');
    assert(!shared.contains('/') && !skills.contains('/'));
    assert(dot()[0] == '.' && dot_dot()[0] == '.');
    lemma_names_of_plain(shared);
    lemma_names_of_plain(skills);
    lemma_names_join(install_root, shared);
    lemma_names_join(shared_of(install_root), skills);
    lemma_names_join(join(shared_of(install_root), skills), alias);
    let base = names(install_root);
    let tail = seq![shared, skills] + names(alias);
    assert(names(shared_of(install_root)) =~= base + seq![shared]);
    assert(names(default_of(install_root, alias)) =~= base + tail);
    assert(no_parent(seq![shared]));
    assert(no_parent(tail)) by {
        assert forall|i: int| 0 <= i < tail.len() implies #[trigger] tail[i] != dot_dot() by {
            if i >= 2 {
                assert(tail[i] == names(alias)[i - 2]);
            }
        }
    }
    let from_root = absolute(install_root);
    let done = resolve(from_root, base);
    lemma_resolve_append(from_root, base, seq![shared]);
    lemma_resolve_append(from_root, base, tail);
    assert(done + seq![shared] =~= done.push(shared));
    assert(done + tail =~= done.push(shared).push(skills) + names(alias));
}

/// The default directory is always accepted. Left out is an alias that does
/// not lead downwards, and so may lead out.
pub proof fn law_default_directory_is_accepted(install_root: Seq<char>, alias: Seq<char>)
    requires
        leads_down(alias),
    ensures
        stays_shared(default_of(install_root, alias), install_root),
{
    lemma_default_names(install_root, alias);
    let inner = default_of(install_root, alias);
    let outer = shared_of(install_root);
    lemma_normalized(inner);
    lemma_normalized(outer);
    let x = components(normalized(outer));
    let y = components(normalized(inner));
    assert(y.subrange(0, x.len() as int) =~= x);
}

/// Bundles that set no directory collide only where their aliases name the
/// same path.
pub proof fn law_default_directories_are_distinct(
    install_root: Seq<char>,
    a: Seq<char>,
    b: Seq<char>,
)
    requires
        leads_down(a),
        leads_down(b),
        normalized(default_of(install_root, a)) == normalized(default_of(install_root, b)),
    ensures
        names(a) == names(b),
{
    lemma_default_names(install_root, a);
    lemma_default_names(install_root, b);
    lemma_normalized(default_of(install_root, a));
    lemma_normalized(default_of(install_root, b));
    let base = resolve(absolute(install_root), names(install_root)).push("shared"@).push("skills"@);
    let n = base.len() as int;
    assert((base + names(a)).skip(n) =~= names(a));
    assert((base + names(b)).skip(n) =~= names(b));
}

/// What is accepted stays below the shared directory: its place begins with
/// the components of the shared directory, and no `..` follows them that could
/// lead out again.
pub proof fn law_accepted_directory_stays_shared(path: Seq<char>, install_root: Seq<char>)
    requires
        stays_shared(path, install_root),
    ensures
        ({
            let shared = components(normalized(shared_of(install_root)));
            let place = components(normalized(path));
            &&& shared.is_prefix_of(place)
            &&& no_parent(place.skip(shared.len() as int))
        }),
{
    let outer = normalized(shared_of(install_root));
    let inner = normalized(path);
    let shared = components(outer);
    let place = components(inner);
    let k = shared.len() - 1;
    lemma_normalized(path);
    lemma_normalized(shared_of(install_root));
    lemma_default_names(install_root, Seq::empty());
    reveal_strlit("shared");
    assert("shared"@[0] == 's');
    assert(dot_dot()[0] == '.' && root()[0] == '/');
    assert(shared[k] == "shared"@);
    assert(place[k] == shared[k]);
    assert forall|i: int| 0 <= i < place.skip(shared.len() as int).len() implies
        #[trigger] place.skip(shared.len() as int)[i] != dot_dot() by {
        let j = i + shared.len();
        let h = if absolute(path) {
            1int
        } else {
            0
        };
        assert(place[j] == names(inner)[j - h]);
        if k >= h {
            assert(place[k] == names(inner)[k - h]);
        }
    }
}

/// A path that climbs out of where it starts is not accepted under a root that
/// does not climb.
pub proof fn law_climbing_path_is_rejected(path: Seq<char>, install_root: Seq<char>)
    requires
        !absolute(path),
        !absolute(install_root),
        no_parent(names(normalized(install_root))),
        !no_parent(names(normalized(path))),
    ensures
        !stays_shared(path, install_root),
{
    lemma_normalized(path);
    lemma_normalized(install_root);
    lemma_normalized(shared_of(install_root));
    lemma_default_names(install_root, Seq::empty());
    let place = names(normalized(path));
    let shared = names(normalized(shared_of(install_root)));
    let base = names(normalized(install_root));
    let i = choose|i: int| 0 <= i < place.len() && #[trigger] place[i] == dot_dot();
    assert(place[0] == dot_dot()) by {
        if i > 0 {
            assert(place[i] == dot_dot());
        }
    }
    reveal_strlit("shared");
    assert("shared"@[0] == 's');
    assert(dot_dot()[0] == '.');
    if base.len() > 0 {
        assert(shared[0] == base[0]);
        assert(base[0] != dot_dot());
    } else {
        assert(shared[0] == "shared"@);
    }
    assert(components(normalized(path))[0] == place[0]);
    assert(components(normalized(shared_of(install_root)))[0] == shared[0]);
}

/// Working out every `..` does not change whether a directory is accepted.
pub proof fn law_acceptance_looks_at_the_place(path: Seq<char>, install_root: Seq<char>)
    ensures
        stays_shared(normalized(path), install_root) == stays_shared(path, install_root),
{
    crate::path::law_normalize_is_idempotent(path);
}

/// Where the shared directory and the default directories are.
pub proof fn law_default_places(install_root: Seq<char>, alias: Seq<char>)
    requires
        install_root.len() > 0,
        install_root.last() != '/',
        alias.len() == 0 || alias[0] != '/',
    ensures
        shared_of(install_root) == install_root + "/shared"@,
        default_of(install_root, alias) == install_root + "/shared/skills/"@ + alias,
{
    reveal_strlit("shared");
    reveal_strlit("skills");
    reveal_strlit("/shared");
    reveal_strlit("/shared/skills/");
    assert(shared_of(install_root) =~= install_root + "/shared"@);
    assert(shared_of(install_root).last() == 'd');
    let skills = join(shared_of(install_root), "skills"@);
    assert(skills.last() == 's');
    assert(default_of(install_root, alias) =~= install_root + "/shared/skills/"@ + alias);
}

/// A directory is accepted exactly where its place begins with the components
/// of the shared directory.
pub proof fn law_directory_is_accepted_when(path: Seq<char>, install_root: Seq<char>)
    ensures
        stays_shared(path, install_root) <==> components(
            normalized(join(install_root, "shared"@)),
        ).is_prefix_of(components(normalized(path))),
{
}

/// Two bundles collide exactly where their directories lead to the same place;
/// the error tells that place and names the earlier of the two.
pub proof fn law_collision_is_told(
    entries: Seq<(Seq<char>, SkillBundleConfig)>,
    install_root: Seq<char>,
    i: int,
    j: int,
)
    requires
        first_collision(entries, install_root, i, j),
    ensures
        ({
            let a = normalized(
                directory_of(install_root, entries[i].0, opt_text(entries[i].1.directory)),
            );
            let b = normalized(
                directory_of(install_root, entries[j].0, opt_text(entries[j].1.directory)),
            );
            &&& 0 <= i < j < entries.len()
            &&& a == b
            &&& collision(entries, install_root, i, j).text() == "skill-bundle directory '"@ + b
                + "' is already claimed by bundle '"@ + entries[i].0
                + "'; each bundle must own a unique directory"@
        }),
{
}

/// Where no two bundles collide, their directories lead to different places.
pub proof fn law_unique_directories_are_distinct(
    entries: Seq<(Seq<char>, SkillBundleConfig)>,
    install_root: Seq<char>,
    i: int,
    j: int,
)
    requires
        places_distinct(entries, install_root, entries.len() as int),
        0 <= i < j < entries.len(),
    ensures
        normalized(directory_of(install_root, entries[i].0, opt_text(entries[i].1.directory)))
            != normalized(
            directory_of(install_root, entries[j].0, opt_text(entries[j].1.directory)),
        ),
{
    assert(place_of(entries, install_root, i) != place_of(entries, install_root, j));
}

/// What each error says.
pub proof fn law_bundle_errors_say(e: BundleErrorView)
    ensures
        match e {
            BundleErrorView::UnknownBundle(alias) => e.text() == "skill bundle '"@ + alias
                + "' is not configured"@,
            BundleErrorView::DirectoryEscapesShared { path, shared } => e.text()
                == "skill-bundle directory '"@ + path + "' escapes the shared workspace at '"@
                + shared + "'; bundles must stay inside `<install>/shared/`"@,
            BundleErrorView::DirectoryCollision { path, other } => e.text()
                == "skill-bundle directory '"@ + path + "' is already claimed by bundle '"@ + other
                + "'; each bundle must own a unique directory"@,
        },
{
}

} // verus!
