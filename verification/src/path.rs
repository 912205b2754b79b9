//! Slash-separated paths as texts: joining, components, containment and
//! lexical normalization. Nothing here looks at a file system.

use vstd::prelude::*;

use crate::text::{chars_of, string_between};
#[allow(unused_imports)]
use crate::text::{
    find_char, lemma_find_char, lemma_find_char_is, lemma_find_char_none, texts,
};

verus! {

// ---------------------------------------------------------------------------
// The model
// ---------------------------------------------------------------------------

/// The component that stands for the current directory.
pub open spec fn dot() -> Seq<char> {
    seq!['.']
}

/// The component that stands for the parent directory.
pub open spec fn dot_dot() -> Seq<char> {
    seq!['.', '.']
}

/// The component that an absolute path begins with.
pub open spec fn root() -> Seq<char> {
    seq!['/']
}

/// A path that begins with a slash is absolute.
pub open spec fn absolute(s: Seq<char>) -> bool {
    s.len() > 0 && s[0] == '/'
}

/// The segment as a list: left out where it is empty or stands for the
/// current directory.
pub open spec fn kept(segment: Seq<char>) -> Seq<Seq<char>> {
    if segment.len() == 0 || segment == dot() {
        Seq::empty()
    } else {
        seq![segment]
    }
}

/// What stands before the first slash of `s`.
pub open spec fn first_segment(s: Seq<char>) -> Seq<char> {
    match find_char(s, '/') {
        Some(i) => s.take(i),
        None => s,
    }
}

/// The names along `s`: what stands between its slashes, without empty
/// segments and without `.`; a `..` is a name here.
pub open spec fn names(s: Seq<char>) -> Seq<Seq<char>>
    decreases s.len(),
    via names_decreases
{
    match find_char(s, '/') {
        Some(i) => kept(s.take(i)) + names(s.skip(i + 1)),
        None => kept(s),
    }
}

#[via_fn]
proof fn names_decreases(s: Seq<char>) {
    lemma_find_char(s, '/');
}

/// What the components of `s` begin with: the root for an absolute path, a
/// `.` for a relative path whose first segment is one, nothing otherwise.
pub open spec fn head(s: Seq<char>) -> Seq<Seq<char>> {
    if absolute(s) {
        seq![root()]
    } else if first_segment(s) == dot() {
        seq![dot()]
    } else {
        Seq::empty()
    }
}

/// The components of `s`. Two paths with the same components name the same
/// place.
pub open spec fn components(s: Seq<char>) -> Seq<Seq<char>> {
    head(s) + names(s)
}

/// `s` is `base`, or lies below it, component by component.
pub open spec fn lies_in(s: Seq<char>, base: Seq<char>) -> bool {
    components(base).is_prefix_of(components(s))
}

/// `rel` seen from `base`: an absolute path stays itself.
pub open spec fn join(base: Seq<char>, rel: Seq<char>) -> Seq<char> {
    if absolute(rel) {
        rel
    } else if base.len() == 0 || base.last() == '/' {
        base + rel
    } else {
        base.push('/') + rel
    }
}

/// The names that are left once each `..` has taken off the name before it.
/// At the root a `..` takes off nothing; on a relative path, a `..` with no
/// name before it that it could take off stays.
pub open spec fn resolve(from_root: bool, parts: Seq<Seq<char>>) -> Seq<Seq<char>>
    decreases parts.len(),
{
    if parts.len() == 0 {
        parts
    } else {
        let before = resolve(from_root, parts.drop_last());
        if parts.last() != dot_dot() {
            before.push(parts.last())
        } else if before.len() > 0 && before.last() != dot_dot() {
            before.drop_last()
        } else if from_root {
            before
        } else {
            before.push(dot_dot())
        }
    }
}

/// The names in `parts` with a slash between each two of them.
pub open spec fn joined(parts: Seq<Seq<char>>) -> Seq<char>
    decreases parts.len(),
{
    if parts.len() == 0 {
        Seq::empty()
    } else if parts.len() == 1 {
        parts[0]
    } else {
        joined(parts.drop_last()).push('/') + parts.last()
    }
}

/// The path with the given names.
pub open spec fn rendered(from_root: bool, parts: Seq<Seq<char>>) -> Seq<char> {
    if from_root {
        root() + joined(parts)
    } else {
        joined(parts)
    }
}

/// `s` with every `.` and every `..` worked out on the text alone, as far as
/// they can be.
pub open spec fn normalized(s: Seq<char>) -> Seq<char> {
    rendered(absolute(s), resolve(absolute(s), names(s)))
}

// ---------------------------------------------------------------------------
// Facts about the model
// ---------------------------------------------------------------------------

/// A name can stand between two slashes: it is not empty, holds no slash and
/// is not `.`.
pub open spec fn plain_name(part: Seq<char>) -> bool {
    part.len() > 0 && !part.contains('/') && part != dot()
}

/// A list of names that can each stand between two slashes.
pub open spec fn plain_names(parts: Seq<Seq<char>>) -> bool {
    forall|i: int| 0 <= i < parts.len() ==> plain_name(#[trigger] parts[i])
}

/// Every `..` in the list comes before every other name.
pub open spec fn parents_first(parts: Seq<Seq<char>>) -> bool {
    forall|i: int, j: int|
        0 <= i < j < parts.len() && #[trigger] parts[j] == dot_dot() ==> #[trigger] parts[i]
            == dot_dot()
}

/// There is no `..` left to work out: at the root there is none at all, and on
/// a relative path each comes before every other name.
pub open spec fn settled(from_root: bool, parts: Seq<Seq<char>>) -> bool {
    if from_root {
        no_parent(parts)
    } else {
        parents_first(parts)
    }
}

/// No name in the list is `..`.
pub open spec fn no_parent(parts: Seq<Seq<char>>) -> bool {
    forall|i: int| 0 <= i < parts.len() ==> #[trigger] parts[i] != dot_dot()
}

/// The names along two paths with a slash between them.
pub proof fn lemma_names_concat(a: Seq<char>, b: Seq<char>)
    ensures
        names(a.push('/') + b) == names(a) + names(b),
        first_segment(a.push('/') + b) == first_segment(a),
    decreases a.len(),
{
    let all = a.push('/') + b;
    lemma_find_char(a, '/');
    match find_char(a, '/') {
        Some(i) => {
            assert forall|j: int| 0 <= j < i implies all[j] != '/' by {
                assert(all[j] == a[j]);
            }
            assert(all[i] == a[i]);
            lemma_find_char_is(all, '/', i);
            assert(all.take(i) =~= a.take(i));
            assert(all.skip(i + 1) =~= a.skip(i + 1).push('/') + b);
            lemma_names_concat(a.skip(i + 1), b);
            assert(kept(a.take(i)) + (names(a.skip(i + 1)) + names(b)) =~= (kept(a.take(i))
                + names(a.skip(i + 1))) + names(b));
        },
        None => {
            assert forall|j: int| 0 <= j < a.len() implies all[j] != '/' by {
                assert(all[j] == a[j]);
                assert(a.contains(a[j]));
            }
            lemma_find_char_is(all, '/', a.len() as int);
            assert(all.take(a.len() as int) =~= a);
            assert(all.skip(a.len() + 1int) =~= b);
        },
    }
}

/// The names along a joined path are those of both parts.
pub proof fn lemma_names_join(base: Seq<char>, rel: Seq<char>)
    requires
        !absolute(rel),
    ensures
        names(join(base, rel)) == names(base) + names(rel),
        absolute(join(base, rel)) == absolute(base),
        base.len() > 0 ==> first_segment(join(base, rel)) == first_segment(base),
{
    if base.len() == 0 {
        assert(base + rel =~= rel);
        assert(base =~= Seq::<char>::empty());
        assert(names(base) =~= Seq::<Seq<char>>::empty());
        assert(names(base) + names(rel) =~= names(rel));
    } else if base.last() == '/' {
        let b = base.drop_last();
        assert(base =~= b.push('/') + Seq::<char>::empty());
        assert(base + rel =~= b.push('/') + rel);
        lemma_names_concat(b, Seq::<char>::empty());
        lemma_names_concat(b, rel);
        assert(names(Seq::<char>::empty()) =~= Seq::<Seq<char>>::empty());
        assert(names(b) + Seq::<Seq<char>>::empty() =~= names(b));
    } else {
        lemma_names_concat(base, rel);
    }
}

/// Below a base that is not empty, the components of a joined path are those
/// of the base and then the names of the rest.
pub proof fn lemma_components_join(base: Seq<char>, rel: Seq<char>)
    requires
        base.len() > 0,
        !absolute(rel),
    ensures
        components(join(base, rel)) == components(base) + names(rel),
{
    lemma_names_join(base, rel);
    assert(head(base) + (names(base) + names(rel)) =~= components(base) + names(rel));
}

/// What `names` gives are names that can stand between two slashes.
pub proof fn lemma_names_are_plain(s: Seq<char>)
    ensures
        plain_names(names(s)),
    decreases s.len(),
{
    lemma_find_char(s, '/');
    match find_char(s, '/') {
        Some(i) => {
            lemma_names_are_plain(s.skip(i + 1));
            let first = s.take(i);
            assert forall|k: int| 0 <= k < names(s).len() implies plain_name(
                #[trigger] names(s)[k],
            ) by {
                if k < kept(first).len() {
                    assert(names(s)[k] == first);
                    assert(!first.contains('/'));
                } else {
                    assert(names(s)[k] == names(s.skip(i + 1))[k - kept(first).len()]);
                }
            }
        },
        None => {},
    }
}

/// A text without a slash is its own only name.
pub proof fn lemma_names_of_plain(part: Seq<char>)
    requires
        !part.contains('/'),
    ensures
        names(part) == kept(part),
        first_segment(part) == part,
{
    lemma_find_char(part, '/');
}

/// Working out `..` keeps only names that were there, and leaves no `..` that
/// could still be worked out.
pub proof fn lemma_resolve(from_root: bool, parts: Seq<Seq<char>>)
    requires
        plain_names(parts),
    ensures
        plain_names(resolve(from_root, parts)),
        settled(from_root, resolve(from_root, parts)),
    decreases parts.len(),
{
    if parts.len() > 0 {
        let init = parts.drop_last();
        assert(plain_names(init)) by {
            assert forall|i: int| 0 <= i < init.len() implies plain_name(#[trigger] init[i]) by {
                assert(init[i] == parts[i]);
            }
        }
        lemma_resolve(from_root, init);
        let before = resolve(from_root, init);
        let out = resolve(from_root, parts);
        assert(plain_name(parts[parts.len() - 1]));
        assert forall|i: int| 0 <= i < out.len() implies plain_name(#[trigger] out[i]) by {
            if i < before.len() {
                assert(out[i] == before[i]);
            }
        }
        if from_root {
            assert forall|i: int| 0 <= i < out.len() implies #[trigger] out[i] != dot_dot() by {
                if i < before.len() {
                    assert(out[i] == before[i]);
                }
            }
        } else {
            assert forall|i: int, j: int|
                0 <= i < j < out.len() && #[trigger] out[j] == dot_dot() implies #[trigger] out[i]
                == dot_dot() by {
                assert(out[i] == before[i]);
                if j < before.len() {
                    assert(out[j] == before[j]);
                } else if i < before.len() - 1 {
                    assert(before[before.len() - 1] == dot_dot());
                }
            }
        }
    }
}

/// Where no `..` is left to work out, all names stay.
pub proof fn lemma_resolve_settled(from_root: bool, parts: Seq<Seq<char>>)
    requires
        settled(from_root, parts),
    ensures
        resolve(from_root, parts) == parts,
    decreases parts.len(),
{
    if parts.len() > 0 {
        let init = parts.drop_last();
        assert(settled(from_root, init)) by {
            assert(forall|i: int| 0 <= i < init.len() ==> #[trigger] init[i] == parts[i]);
        }
        lemma_resolve_settled(from_root, init);
        assert(parts.last() == parts[parts.len() - 1]);
        if parts.last() == dot_dot() && init.len() > 0 {
            assert(parts[init.len() - 1] == dot_dot());
        }
        assert(init.push(parts.last()) =~= parts);
    }
}

/// Names that follow without a `..` stay as they are.
pub proof fn lemma_resolve_append(from_root: bool, a: Seq<Seq<char>>, b: Seq<Seq<char>>)
    requires
        no_parent(b),
    ensures
        resolve(from_root, a + b) == resolve(from_root, a) + b,
    decreases b.len(),
{
    let done = resolve(from_root, a);
    if b.len() == 0 {
        assert(a + b =~= a);
        assert(done + b =~= done);
    } else {
        let init = b.drop_last();
        assert(no_parent(init)) by {
            assert forall|i: int| 0 <= i < init.len() implies #[trigger] init[i] != dot_dot() by {
                assert(init[i] == b[i]);
            }
        }
        lemma_resolve_append(from_root, a, init);
        assert((a + b).drop_last() =~= a + init);
        assert((a + b).last() == b[b.len() - 1]);
        assert((done + init).push(b.last()) =~= done + b);
    }
}

/// The names along a joined list of names are the list.
pub proof fn lemma_names_joined(parts: Seq<Seq<char>>)
    requires
        plain_names(parts),
    ensures
        names(joined(parts)) == parts,
        !absolute(joined(parts)),
        parts.len() > 0 ==> first_segment(joined(parts)) == parts[0],
        parts.len() == 0 ==> joined(parts).len() == 0,
    decreases parts.len(),
{
    if parts.len() == 0 {
        assert(names(joined(parts)) =~= parts);
    } else if parts.len() == 1 {
        let only = parts[0];
        assert(plain_name(only));
        lemma_names_of_plain(only);
        assert(!absolute(only)) by {
            if absolute(only) {
                assert(only.contains(only[0]));
            }
        }
        assert(seq![only] =~= parts);
    } else {
        let init = parts.drop_last();
        assert(plain_names(init)) by {
            assert forall|i: int| 0 <= i < init.len() implies plain_name(#[trigger] init[i]) by {
                assert(init[i] == parts[i]);
            }
        }
        lemma_names_joined(init);
        let last = parts.last();
        assert(plain_name(parts[parts.len() - 1]));
        lemma_names_of_plain(last);
        lemma_names_concat(joined(init), last);
        assert(init + seq![last] =~= parts);
        assert(joined(init).len() > 0) by {
            if joined(init).len() == 0 {
                assert(joined(init) =~= Seq::<char>::empty());
                assert(names(joined(init)) =~= Seq::<Seq<char>>::empty());
            }
        }
        assert(joined(parts)[0] == joined(init)[0]);
    }
}

/// A rendered path has the names, and begins at the root, as asked.
pub proof fn lemma_names_rendered(from_root: bool, parts: Seq<Seq<char>>)
    requires
        plain_names(parts),
    ensures
        names(rendered(from_root, parts)) == parts,
        absolute(rendered(from_root, parts)) == from_root,
        components(rendered(from_root, parts)) == (if from_root {
            seq![root()] + parts
        } else {
            parts
        }),
{
    lemma_names_joined(parts);
    if from_root {
        let empty = Seq::<char>::empty();
        assert(root() + joined(parts) =~= empty.push('/') + joined(parts));
        lemma_names_concat(empty, joined(parts));
        assert(names(empty) =~= Seq::<Seq<char>>::empty());
        assert(names(empty) + parts =~= parts);
        assert(rendered(from_root, parts)[0] == '/');
    } else {
        let s = joined(parts);
        if parts.len() > 0 {
            assert(plain_name(parts[0]));
        } else {
            lemma_find_char_none(s, '/');
        }
        assert(head(s) + parts =~= parts);
    }
}

/// The names along a normalized path: the names of the path once each `..` is
/// worked out, so that none is left to work out.
pub proof fn lemma_normalized(s: Seq<char>)
    ensures
        names(normalized(s)) == resolve(absolute(s), names(s)),
        absolute(normalized(s)) == absolute(s),
        plain_names(names(normalized(s))),
        settled(absolute(s), names(normalized(s))),
        components(normalized(s)) == (if absolute(s) {
            seq![root()] + resolve(absolute(s), names(s))
        } else {
            resolve(absolute(s), names(s))
        }),
{
    lemma_names_are_plain(s);
    lemma_resolve(absolute(s), names(s));
    lemma_names_rendered(absolute(s), resolve(absolute(s), names(s)));
}

/// Normalizing a normalized path changes nothing.
pub proof fn law_normalize_is_idempotent(s: Seq<char>)
    ensures
        normalized(normalized(s)) == normalized(s),
{
    lemma_normalized(s);
    lemma_resolve_settled(absolute(s), names(normalized(s)));
}

/// A normalized path is told from another by its components: two normalized
/// paths with the same components are the same text.
pub proof fn law_normalized_paths_are_canonical(a: Seq<char>, b: Seq<char>)
    requires
        components(normalized(a)) == components(normalized(b)),
    ensures
        normalized(a) == normalized(b),
{
    lemma_normalized(a);
    lemma_normalized(b);
    let x = resolve(absolute(a), names(a));
    let y = resolve(absolute(b), names(b));
    if absolute(a) && absolute(b) {
        assert((seq![root()] + x).skip(1) =~= x);
        assert((seq![root()] + y).skip(1) =~= y);
    } else if absolute(a) {
        assert(y[0] == root());
        assert(plain_name(names(normalized(b))[0]));
        assert(root().contains('/')) by {
            assert(root()[0] == '/');
        }
    } else if absolute(b) {
        assert(x[0] == root());
        assert(plain_name(names(normalized(a))[0]));
        assert(root().contains('/')) by {
            assert(root()[0] == '/');
        }
    }
}

// ---------------------------------------------------------------------------
// Operations
// ---------------------------------------------------------------------------

/// Whether `path` is absolute.
pub fn is_absolute(path: &str) -> (yes: bool)
    ensures
        yes == absolute(path@),
{
    let v = chars_of(path);
    v.len() > 0 && v[0] == '/'
}

/// `rel` seen from `base`.
pub fn join_path(base: &str, rel: &str) -> (out: String)
    ensures
        out@ == join(base@, rel@),
{
    if is_absolute(rel) {
        return rel.to_owned();
    }
    let v = chars_of(base);
    let mut out = base.to_owned();
    if v.len() > 0 && v[v.len() - 1] != '/' {
        out.push('/');
    }
    out.append(rel);
    out
}

fn push_kept(out: &mut Vec<String>, v: &Vec<char>, from: usize, to: usize)
    requires
        from <= to <= v@.len(),
    ensures
        texts(final(out)@) == texts(old(out)@) + kept(v@.subrange(from as int, to as int)),
{
    let ghost part = v@.subrange(from as int, to as int);
    if from == to || (to - from == 1 && v[from] == '.') {
        proof {
            if to - from == 1 {
                assert(part =~= dot());
            }
            assert(texts(out@) + Seq::<Seq<char>>::empty() =~= texts(out@));
        }
        return ;
    }
    proof {
        if part == dot() {
            assert(part.len() == 1);
            assert(part[0] == '.');
        }
    }
    let ghost before = out@;
    out.push(string_between(v, from, to));
    proof {
        assert(texts(out@) =~= texts(before) + seq![part]);
    }
}

/// The names along `path`.
pub fn names_of(path: &str) -> (out: Vec<String>)
    ensures
        texts(out@) == names(path@),
{
    let v = chars_of(path);
    let mut out: Vec<String> = Vec::new();
    let mut from: usize = 0;
    let mut i: usize = 0;
    proof {
        assert(v@.skip(0) =~= v@);
        assert(texts(out@) + names(v@) =~= names(v@));
    }
    while i < v.len()
        invariant
            v@ == path@,
            from <= i <= v@.len(),
            forall|j: int| from <= j < i ==> v@[j] != '/',
            texts(out@) + names(v@.skip(from as int)) == names(v@),
        decreases v@.len() - i,
    {
        if v[i] == '/' {
            let ghost rest = v@.skip(from as int);
            let ghost before = texts(out@);
            push_kept(&mut out, &v, from, i);
            proof {
                lemma_find_char_is(rest, '/', i - from);
                assert(rest.take(i - from) =~= v@.subrange(from as int, i as int));
                assert(rest.skip(i - from + 1) =~= v@.skip(i + 1));
                assert(before + (kept(rest.take(i - from)) + names(v@.skip(i + 1))) =~= texts(out@)
                    + names(v@.skip(i + 1)));
            }
            from = i + 1;
        }
        i = i + 1;
    }
    let ghost rest = v@.skip(from as int);
    let end: usize = v.len();
    push_kept(&mut out, &v, from, end);
    proof {
        assert forall|j: int| 0 <= j < rest.len() implies rest[j] != '/' by {
            assert(rest[j] == v@[from + j]);
        }
        lemma_find_char_none(rest, '/');
        assert(v@.subrange(from as int, end as int) =~= rest);
    }
    out
}

/// Whether the first segment of the relative path `v` is a single dot.
fn begins_with_dot(v: &Vec<char>) -> (yes: bool)
    ensures
        yes == (first_segment(v@) == dot()),
{
    proof {
        lemma_find_char(v@, '/');
    }
    if v.len() > 0 && v[0] == '.' && (v.len() == 1 || v[1] == '/') {
        proof {
            if v@.len() == 1 {
                lemma_find_char_none(v@, '/');
                assert(v@ =~= dot());
            } else {
                lemma_find_char_is(v@, '/', 1);
                assert(v@.take(1) =~= dot());
            }
        }
        true
    } else {
        proof {
            if first_segment(v@) == dot() {
                assert(first_segment(v@).len() == 1);
                assert(first_segment(v@)[0] == '.');
                match find_char(v@, '/') {
                    Some(i) => {
                        assert(v@.take(i)[0] == v@[0]);
                    },
                    None => {},
                }
            }
        }
        false
    }
}

/// The components of `path`.
pub fn components_of(path: &str) -> (out: Vec<String>)
    ensures
        texts(out@) == components(path@),
{
    let v = chars_of(path);
    let mut out: Vec<String> = Vec::new();
    if v.len() > 0 && v[0] == '/' {
        out.push(string_between(&v, 0, 1));
        proof {
            assert(v@.subrange(0, 1) =~= root());
            assert(texts(out@) =~= seq![root()]);
        }
    } else if begins_with_dot(&v) {
        out.push(string_between(&v, 0, 1));
        proof {
            lemma_find_char(v@, '/');
            match find_char(v@, '/') {
                Some(i) => {
                    assert(v@.take(i).len() == 1);
                    assert(v@.subrange(0, 1) =~= v@.take(i));
                },
                None => {
                    assert(v@.subrange(0, 1) =~= v@);
                },
            }
            assert(texts(out@) =~= seq![dot()]);
        }
    } else {
        proof {
            assert(texts(out@) =~= Seq::<Seq<char>>::empty());
        }
    }
    let ghost first = out@;
    let mut rest = names_of(path);
    let ghost following = rest@;
    out.append(&mut rest);
    proof {
        assert(texts(out@) =~= texts(first) + texts(following));
    }
    out
}

/// Whether `path` is `base`, or lies below it.
pub fn path_lies_in(path: &str, base: &str) -> (yes: bool)
    ensures
        yes == lies_in(path@, base@),
{
    let outer = components_of(base);
    let inner = components_of(path);
    let ghost x = components(base@);
    let ghost y = components(path@);
    proof {
        assert(forall|j: int| 0 <= j < x.len() ==> #[trigger] x[j] == outer@[j]@);
        assert(forall|j: int| 0 <= j < y.len() ==> #[trigger] y[j] == inner@[j]@);
        assert(texts(outer@).len() == outer@.len());
        assert(texts(inner@).len() == inner@.len());
    }
    if outer.len() > inner.len() {
        return false;
    }
    let mut i: usize = 0;
    while i < outer.len()
        invariant
            x == components(base@),
            y == components(path@),
            x.len() == outer@.len(),
            y.len() == inner@.len(),
            forall|j: int| 0 <= j < x.len() ==> #[trigger] x[j] == outer@[j]@,
            forall|j: int| 0 <= j < y.len() ==> #[trigger] y[j] == inner@[j]@,
            i <= outer@.len() <= inner@.len(),
            forall|j: int| 0 <= j < i ==> x[j] == y[j],
        decreases outer@.len() - i,
    {
        if outer[i] != inner[i] {
            proof {
                assert(x[i as int] != y[i as int]);
                assert(y.subrange(0, x.len() as int)[i as int] == y[i as int]);
            }
            return false;
        }
        i = i + 1;
    }
    proof {
        assert(y.subrange(0, x.len() as int) =~= x);
    }
    true
}

/// Whether a name stands for the parent directory.
fn is_parent(part: &str) -> (yes: bool)
    ensures
        yes == (part@ == dot_dot()),
{
    let v = chars_of(part);
    let yes: bool = v.len() == 2 && v[0] == '.' && v[1] == '.';
    proof {
        if yes {
            assert(v@ =~= dot_dot());
        } else if v@ == dot_dot() {
            assert(dot_dot()[0] == '.' && dot_dot()[1] == '.');
        }
    }
    yes
}

/// `path` with every `.` and every `..` worked out on the text alone.
pub fn normalize_path(path: &str) -> (out: String)
    ensures
        out@ == normalized(path@),
{
    let parts = names_of(path);
    let from_root: bool = is_absolute(path);
    let mut kept_parts: Vec<String> = Vec::new();
    let mut i: usize = 0;
    let ghost all = names(path@);
    proof {
        assert(all.take(0) =~= Seq::<Seq<char>>::empty());
        assert(texts(kept_parts@) =~= resolve(from_root, all.take(0)));
        assert(texts(parts@).len() == parts@.len());
    }
    while i < parts.len()
        invariant
            all == names(path@),
            all == texts(parts@),
            all.len() == parts@.len(),
            i <= parts@.len(),
            from_root == absolute(path@),
            texts(kept_parts@) == resolve(from_root, all.take(i as int)),
        decreases parts@.len() - i,
    {
        let ghost before = kept_parts@;
        proof {
            assert(all.take(i + 1).drop_last() =~= all.take(i as int));
            assert(all[i as int] == parts@[i as int]@);
        }
        let n: usize = kept_parts.len();
        let climbs: bool = is_parent(parts[i].as_str());
        if climbs && n > 0 && !is_parent(kept_parts[n - 1].as_str()) {
            let _ = kept_parts.pop();
            proof {
                assert(texts(kept_parts@) =~= texts(before).drop_last());
            }
        } else if !climbs || !from_root {
            kept_parts.push(parts[i].clone());
            proof {
                assert(texts(kept_parts@) =~= texts(before).push(all[i as int]));
            }
        }
        i = i + 1;
    }
    proof {
        assert(all.take(all.len() as int) =~= all);
    }
    let body = joined_of(&kept_parts);
    if from_root {
        let mut out = "/".to_owned();
        proof {
            reveal_strlit("/");
            assert(out@ =~= root());
        }
        out.append(body.as_str());
        out
    } else {
        body
    }
}

fn joined_of(parts: &Vec<String>) -> (out: String)
    ensures
        out@ == joined(texts(parts@)),
{
    let mut out = String::new();
    let mut i: usize = 0;
    let ghost all = texts(parts@);
    proof {
        assert(all.take(0) =~= Seq::<Seq<char>>::empty());
    }
    while i < parts.len()
        invariant
            all == texts(parts@),
            i <= parts@.len(),
            out@ == joined(all.take(i as int)),
        decreases parts@.len() - i,
    {
        proof {
            assert(all.take(i + 1).drop_last() =~= all.take(i as int));
            assert(all.take(i + 1).last() == parts@[i as int]@);
        }
        if i > 0 {
            out.push('/');
        }
        out.append(parts[i].as_str());
        proof {
            if i == 0 {
                assert(out@ =~= parts@[0]@);
                assert(all.take(1)[0] == parts@[0]@);
            }
        }
        i = i + 1;
    }
    proof {
        assert(all.take(all.len() as int) =~= all);
    }
    out
}

/// A relative path is put behind the base with one slash between them, or none
/// where the base ends with one or is empty; an absolute path stays itself.
pub proof fn law_join_puts_a_slash_between(base: Seq<char>, rel: Seq<char>)
    ensures
        rel.len() > 0 && rel[0] == '/' ==> join(base, rel) == rel,
        (rel.len() == 0 || rel[0] != '/') && base.len() > 0 && base.last() != '/' ==> join(
            base,
            rel,
        ) == base + seq!['/'] + rel,
        (rel.len() == 0 || rel[0] != '/') && (base.len() == 0 || base.last() == '/') ==> join(
            base,
            rel,
        ) == base + rel,
{
    assert(base.push('/') + rel =~= base + seq!['/'] + rel);
}

/// A `..` takes off the name before it; at the root it takes off nothing, and
/// on a relative path without a name before it, it stays. Names without a `..`
/// behind them stay.
pub proof fn law_parent_takes_off_a_name(
    from_root: bool,
    parts: Seq<Seq<char>>,
    name: Seq<char>,
)
    requires
        name != seq!['.', '.'],
    ensures
        resolve(from_root, parts.push(name).push(seq!['.', '.'])) == resolve(from_root, parts),
        resolve(from_root, parts.push(name)) == resolve(from_root, parts).push(name),
        resolve(true, seq![seq!['.', '.']]).len() == 0,
        resolve(false, seq![seq!['.', '.']]) == seq![seq!['.', '.']],
        resolve(from_root, Seq::empty()).len() == 0,
{
    assert(parts.push(name).drop_last() =~= parts);
    assert(parts.push(name).push(seq!['.', '.']).drop_last() =~= parts.push(name));
    let before = resolve(from_root, parts);
    assert(before.push(name).drop_last() =~= before);
    let more = parts.push(name);
    assert(more.last() == name);
    assert(resolve(from_root, more) == before.push(name));
    let all = more.push(seq!['.', '.']);
    assert(all.last() == dot_dot());
    assert(all.drop_last() == more);
    assert(resolve(from_root, all) == before.push(name).drop_last());
    let one = seq![seq!['.', '.']];
    assert(one.drop_last() =~= Seq::<Seq<char>>::empty());
    assert(resolve(true, one.drop_last()).len() == 0);
    assert(resolve(false, one.drop_last()).len() == 0);
    assert(resolve(false, one) =~= one);
}

/// A path lies in a directory exactly where the components of the directory
/// are the first components of the path.
pub proof fn law_lying_in_goes_by_components(s: Seq<char>, base: Seq<char>)
    ensures
        lies_in(s, base) <==> components(base).len() <= components(s).len() && (forall|i: int|
            0 <= i < components(base).len() ==> #[trigger] components(s)[i] == components(base)[i]),
{
    let x = components(base);
    let y = components(s);
    if x.len() <= y.len() && (forall|i: int| 0 <= i < x.len() ==> #[trigger] y[i] == x[i]) {
        assert(x =~= y.subrange(0, x.len() as int));
    }
    if lies_in(s, base) {
        assert forall|i: int| 0 <= i < x.len() implies #[trigger] y[i] == x[i] by {
            assert(y.subrange(0, x.len() as int)[i] == y[i]);
        }
    }
}

} // verus!
