//! Dictionary order on texts, and the order in which a list of names comes
//! out sorted.

use vstd::prelude::*;

use crate::text::chars_of;
#[allow(unused_imports)]
use crate::text::texts;

verus! {

/// `a` comes before `b` in dictionary order, or is the same text. Characters
/// are ordered by their code points, so this is also the order of the UTF-8
/// bytes.
pub open spec fn text_le(a: Seq<char>, b: Seq<char>) -> bool
    decreases a.len(),
{
    if a.len() == 0 {
        true
    } else if b.len() == 0 {
        false
    } else if a[0] == b[0] {
        text_le(a.drop_first(), b.drop_first())
    } else {
        (a[0] as int) < (b[0] as int)
    }
}

/// Dictionary order is total.
pub proof fn lemma_text_le_total(a: Seq<char>, b: Seq<char>)
    ensures
        text_le(a, b) || text_le(b, a),
    decreases a.len(),
{
    if a.len() > 0 && b.len() > 0 && a[0] == b[0] {
        lemma_text_le_total(a.drop_first(), b.drop_first());
    }
}

/// Two texts that come before each other are the same.
pub proof fn lemma_text_le_antisymmetric(a: Seq<char>, b: Seq<char>)
    requires
        text_le(a, b),
        text_le(b, a),
    ensures
        a == b,
    decreases a.len(),
{
    if a.len() > 0 && b.len() > 0 && a[0] == b[0] {
        lemma_text_le_antisymmetric(a.drop_first(), b.drop_first());
        assert(a =~= seq![a[0]] + a.drop_first());
        assert(b =~= seq![b[0]] + b.drop_first());
    } else {
        assert(a =~= b);
    }
}

/// Dictionary order is transitive.
pub proof fn lemma_text_le_transitive(a: Seq<char>, b: Seq<char>, c: Seq<char>)
    requires
        text_le(a, b),
        text_le(b, c),
    ensures
        text_le(a, c),
    decreases a.len(),
{
    if a.len() > 0 && b.len() > 0 && c.len() > 0 && a[0] == b[0] && b[0] == c[0] {
        lemma_text_le_transitive(a.drop_first(), b.drop_first(), c.drop_first());
    }
}

/// Every text comes before itself.
pub proof fn lemma_text_le_reflexive(a: Seq<char>)
    ensures
        text_le(a, a),
{
    lemma_text_le_total(a, a);
}

/// Whether `a` comes before `b` in dictionary order, or is the same text.
pub fn text_le_of(a: &str, b: &str) -> (yes: bool)
    ensures
        yes == text_le(a@, b@),
{
    let x = chars_of(a);
    let y = chars_of(b);
    let mut i: usize = 0;
    proof {
        assert(x@.skip(0) =~= x@);
        assert(y@.skip(0) =~= y@);
    }
    while i < x.len() && i < y.len()
        invariant
            x@ == a@,
            y@ == b@,
            i <= x@.len(),
            i <= y@.len(),
            text_le(a@, b@) == text_le(x@.skip(i as int), y@.skip(i as int)),
        decreases x@.len() - i,
    {
        proof {
            assert(x@.skip(i as int).drop_first() =~= x@.skip(i + 1));
            assert(y@.skip(i as int).drop_first() =~= y@.skip(i + 1));
        }
        if x[i] != y[i] {
            return x[i] < y[i];
        }
        i = i + 1;
    }
    i == x.len()
}

/// Of the names in `keys`, the one at `i` comes out of a stable sort before
/// the one at `j`.
pub open spec fn sorts_before(keys: Seq<Seq<char>>, i: int, j: int) -> bool {
    &&& text_le(keys[i], keys[j])
    &&& keys[i] == keys[j] ==> i < j
}

/// `order` holds each position of `keys` once, in the order in which a stable
/// sort brings the names out.
pub open spec fn is_sort_order(order: Seq<usize>, keys: Seq<Seq<char>>) -> bool {
    &&& order.len() == keys.len()
    &&& forall|i: int| 0 <= i < order.len() ==> #[trigger] order[i] < keys.len()
    &&& forall|i: int, j: int|
        0 <= i < j < order.len() ==> #[trigger] sorts_before(keys, order[i] as int, order[j] as int)
    &&& forall|k: usize| k < keys.len() ==> #[trigger] order.contains(k)
}

/// The positions of `keys` in the order in which a stable sort brings the
/// names out.
pub open spec fn sorted_order(keys: Seq<Seq<char>>) -> Seq<usize> {
    choose|order: Seq<usize>| is_sort_order(order, keys)
}

/// `items` taken in the order of the positions in `order`.
pub open spec fn arranged<T>(items: Seq<T>, order: Seq<usize>) -> Seq<T> {
    Seq::new(order.len(), |i: int| items[order[i] as int])
}

/// The positions of `keys` in the order in which a stable sort brings the
/// names out.
pub fn sort_order(keys: &Vec<String>) -> (order: Vec<usize>)
    ensures
        is_sort_order(order@, texts(keys@)),
        order@ == sorted_order(texts(keys@)),
{
    let mut order: Vec<usize> = Vec::new();
    let mut n: usize = 0;
    let ghost names = texts(keys@);
    proof {
        assert(names.take(0) =~= Seq::<Seq<char>>::empty());
    }
    while n < keys.len()
        invariant
            n <= keys@.len(),
            names == texts(keys@),
            is_sort_order(order@, names.take(n as int)),
        decreases keys@.len() - n,
    {
        let mut at: usize = order.len();
        let ghost old_names = names.take(n as int);
        let ghost new_names = names.take(n + 1);
        while at > 0 && !text_le_of(keys[order[at - 1]].as_str(), keys[n].as_str())
            invariant
                n < keys@.len(),
                names == texts(keys@),
                old_names == names.take(n as int),
                is_sort_order(order@, old_names),
                at <= order@.len(),
                forall|k: int|
                    at <= k < order@.len() ==> !text_le(
                        names[#[trigger] order@[k] as int],
                        names[n as int],
                    ),
            decreases at,
        {
            at = at - 1;
        }
        let ghost before = order@;
        order.insert(at, n);
        proof {
            lemma_insert_keeps_order(before, order@, names, n as int, at as int);
        }
        n = n + 1;
    }
    proof {
        assert(names.take(names.len() as int) =~= names);
        law_sort_order_is_unique(order@, sorted_order(names), names);
    }
    order
}

proof fn lemma_insert_keeps_order(
    before: Seq<usize>,
    after: Seq<usize>,
    names: Seq<Seq<char>>,
    n: int,
    at: int,
)
    requires
        0 <= n < names.len(),
        n <= usize::MAX,
        is_sort_order(before, names.take(n)),
        0 <= at <= before.len(),
        after == before.insert(at, n as usize),
        at > 0 ==> text_le(names[before[at - 1] as int], names[n]),
        forall|k: int|
            at <= k < before.len() ==> !text_le(names[#[trigger] before[k] as int], names[n]),
    ensures
        is_sort_order(after, names.take(n + 1)),
{
    let old_names = names.take(n);
    let new_names = names.take(n + 1);
    assert forall|i: int| 0 <= i < after.len() implies #[trigger] after[i] < new_names.len() by {
        if i < at {
            assert(after[i] == before[i]);
        } else if i > at {
            assert(after[i] == before[i - 1]);
        }
    }
    assert forall|i: int, j: int| 0 <= i < j < after.len() implies #[trigger] sorts_before(
        new_names,
        after[i] as int,
        after[j] as int,
    ) by {
        let bi = if i < at { i } else { i - 1 };
        let bj = if j < at { j } else { j - 1 };
        if i != at && j != at {
            assert(after[i] == before[bi] && after[j] == before[bj]);
            assert(sorts_before(old_names, before[bi] as int, before[bj] as int));
        } else if j == at {
            assert(after[i] == before[i]);
            assert(before[i] < old_names.len());
            let x = names[before[i] as int];
            let last = names[before[at - 1] as int];
            assert(before[at - 1] < old_names.len());
            if i < at - 1 {
                assert(sorts_before(old_names, before[i] as int, before[at - 1] as int));
                lemma_text_le_transitive(x, last, names[n]);
            }
        } else {
            assert(after[j] == before[bj]);
            assert(before[bj] < old_names.len());
            lemma_text_le_total(names[before[bj] as int], names[n]);
        }
    }
    assert forall|k: usize| k < new_names.len() implies #[trigger] after.contains(k) by {
        if k == n {
            assert(after[at] == k);
        } else {
            assert(before.contains(k));
            let p = choose|p: int| 0 <= p < before.len() && before[p] == k;
            if p < at {
                assert(after[p] == k);
            } else {
                assert(after[p + 1] == k);
            }
        }
    }
}

/// The stable sort order of a list of names is the only one: two sequences
/// that are both in it are equal.
pub proof fn law_sort_order_is_unique(a: Seq<usize>, b: Seq<usize>, keys: Seq<Seq<char>>)
    requires
        is_sort_order(a, keys),
        is_sort_order(b, keys),
    ensures
        a == b,
{
    assert forall|i: int| 0 <= i < a.len() implies a[i] == b[i] by {
        lemma_same_prefix(a, b, keys, i);
    }
    assert(a =~= b);
}

proof fn lemma_same_prefix(a: Seq<usize>, b: Seq<usize>, keys: Seq<Seq<char>>, i: int)
    requires
        is_sort_order(a, keys),
        is_sort_order(b, keys),
        0 <= i < a.len(),
    ensures
        a[i] == b[i],
    decreases i,
{
    assert forall|j: int| 0 <= j < i implies a[j] == b[j] by {
        lemma_same_prefix(a, b, keys, j);
    }
    if a[i] != b[i] {
        assert(b.contains(a[i]));
        assert(a.contains(b[i]));
        let p = choose|p: int| 0 <= p < b.len() && b[p] == a[i];
        let q = choose|q: int| 0 <= q < a.len() && a[q] == b[i];
        if p < i {
            assert(a[p] == b[p]);
            assert(sorts_before(keys, a[p] as int, a[i] as int));
        }
        if q < i {
            assert(a[q] == b[q]);
            assert(sorts_before(keys, b[q] as int, b[i] as int));
        }
        assert(p > i && q > i);
        assert(sorts_before(keys, b[i] as int, b[p] as int));
        assert(sorts_before(keys, a[i] as int, a[q] as int));
        lemma_text_le_antisymmetric(keys[a[i] as int], keys[b[i] as int]);
    }
}

/// The names taken in sort order come out sorted.
pub proof fn law_sort_order_is_sorted(order: Seq<usize>, keys: Seq<Seq<char>>, i: int, j: int)
    requires
        is_sort_order(order, keys),
        0 <= i <= j < order.len(),
    ensures
        text_le(keys[order[i] as int], keys[order[j] as int]),
{
    if i < j {
        assert(sorts_before(keys, order[i] as int, order[j] as int));
    } else {
        lemma_text_le_reflexive(keys[order[i] as int]);
    }
}

/// Every list of names has a sort order.
pub proof fn lemma_sort_order_exists(keys: Seq<Seq<char>>)
    requires
        keys.len() <= usize::MAX,
    ensures
        is_sort_order(sorted_order(keys), keys),
{
    lemma_sort_order_upto(keys, keys.len() as int);
    assert(keys.take(keys.len() as int) =~= keys);
}

proof fn lemma_sort_order_upto(keys: Seq<Seq<char>>, n: int)
    requires
        0 <= n <= keys.len() <= usize::MAX,
    ensures
        exists|order: Seq<usize>| is_sort_order(order, keys.take(n)),
    decreases n,
{
    if n == 0 {
        assert(is_sort_order(Seq::<usize>::empty(), keys.take(0)));
    } else {
        lemma_sort_order_upto(keys, n - 1);
        let fewer = keys.take(n - 1);
        let before = choose|order: Seq<usize>| is_sort_order(order, fewer);
        let at = insertion_point(before, keys, keys[n - 1], before.len() as int);
        lemma_insertion_point(before, keys, keys[n - 1], before.len() as int);
        let after = before.insert(at, (n - 1) as usize);
        lemma_insert_keeps_order(before, after, keys, n - 1, at);
        assert(is_sort_order(after, keys.take(n)));
    }
}

/// Going down from `at`, the place behind the first name that is not greater
/// than `name`.
spec fn insertion_point(
    order: Seq<usize>,
    keys: Seq<Seq<char>>,
    name: Seq<char>,
    at: int,
) -> int
    decreases at,
{
    if at <= 0 || text_le(keys[order[at - 1] as int], name) {
        at
    } else {
        insertion_point(order, keys, name, at - 1)
    }
}

proof fn lemma_insertion_point(
    order: Seq<usize>,
    keys: Seq<Seq<char>>,
    name: Seq<char>,
    at: int,
)
    requires
        0 <= at <= order.len(),
    ensures
        ({
            let p = insertion_point(order, keys, name, at);
            &&& 0 <= p <= at
            &&& p > 0 ==> text_le(keys[order[p - 1] as int], name)
            &&& forall|k: int| p <= k < at ==> !text_le(keys[#[trigger] order[k] as int], name)
        }),
    decreases at,
{
    if at > 0 && !text_le(keys[order[at - 1] as int], name) {
        lemma_insertion_point(order, keys, name, at - 1);
    }
}

/// Taking items in sort order leaves none out and adds none.
pub proof fn lemma_arranged_has_same_items<T>(
    items: Seq<T>,
    order: Seq<usize>,
    keys: Seq<Seq<char>>,
    item: T,
)
    requires
        is_sort_order(order, keys),
        keys.len() == items.len() <= usize::MAX,
    ensures
        arranged(items, order).contains(item) <==> items.contains(item),
{
    let out = arranged(items, order);
    if out.contains(item) {
        let i = choose|i: int| 0 <= i < out.len() && out[i] == item;
        assert(items[order[i] as int] == item);
    }
    if items.contains(item) {
        let k = choose|k: int| 0 <= k < items.len() && items[k] == item;
        assert(order.contains(k as usize));
        let i = choose|i: int| 0 <= i < order.len() && order[i] == k as usize;
        assert(out[i] == item);
    }
}

/// Dictionary order: a text comes before what it begins, and where two texts
/// first differ, the smaller character comes first.
pub proof fn law_dictionary_order(
    begin: Seq<char>,
    a: char,
    x: Seq<char>,
    b: char,
    y: Seq<char>,
)
    requires
        a != b,
    ensures
        text_le(begin, begin + x),
        !text_le(begin.push(a) + x, begin),
        text_le(begin.push(a) + x, begin.push(b) + y) <==> (a as int) < (b as int),
    decreases begin.len(),
{
    let p = begin.push(a) + x;
    let q = begin.push(b) + y;
    if begin.len() == 0 {
        assert(p[0] == a && q[0] == b);
    } else {
        let rest = begin.drop_first();
        law_dictionary_order(rest, a, x, b, y);
        assert((begin + x).drop_first() =~= rest + x);
        assert(p.drop_first() =~= rest.push(a) + x);
        assert(q.drop_first() =~= rest.push(b) + y);
        assert(p[0] == begin[0] && q[0] == begin[0]);
    }
}

} // verus!
