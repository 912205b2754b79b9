//! Tables keyed by alias, and sets of names. Entries keep the order in which
//! they were first put in.

use vstd::prelude::*;

use crate::text::same_text;

verus! {

// ---------------------------------------------------------------------------
// Tables
// ---------------------------------------------------------------------------

/// A table of values, each under its own alias.
#[derive(Debug)]
pub struct AliasMap<T> {
    rows: Vec<(String, T)>,
}

/// The entry at `i` is the one for `alias`.
pub open spec fn entry_is<T>(entries: Seq<(Seq<char>, T)>, alias: Seq<char>, i: int) -> bool {
    0 <= i < entries.len() && entries[i].0 == alias
}

/// Some entry is for `alias`.
pub open spec fn has_entry<T>(entries: Seq<(Seq<char>, T)>, alias: Seq<char>) -> bool {
    exists|i: int| entry_is(entries, alias, i)
}

/// No two entries have the same alias.
pub open spec fn distinct_aliases<T>(entries: Seq<(Seq<char>, T)>) -> bool {
    forall|i: int, j: int|
        0 <= i < j < entries.len() ==> #[trigger] entries[i].0 != #[trigger] entries[j].0
}

/// The entries as a map from alias to value.
pub open spec fn table<T>(entries: Seq<(Seq<char>, T)>) -> Map<Seq<char>, T> {
    Map::new(
        |alias: Seq<char>| has_entry(entries, alias),
        |alias: Seq<char>| entries[choose|i: int| entry_is(entries, alias, i)].1,
    )
}

/// The table holds, under the alias of an entry, the value of that entry.
pub proof fn lemma_table_entry<T>(entries: Seq<(Seq<char>, T)>, i: int)
    requires
        distinct_aliases(entries),
        0 <= i < entries.len(),
    ensures
        table(entries).contains_key(entries[i].0),
        table(entries)[entries[i].0] == entries[i].1,
{
    let alias = entries[i].0;
    assert(entry_is(entries, alias, i));
    let k = choose|k: int| entry_is(entries, alias, k);
    assert(entry_is(entries, alias, k));
}

proof fn lemma_table_push<T>(entries: Seq<(Seq<char>, T)>, alias: Seq<char>, value: T)
    requires
        distinct_aliases(entries),
        !has_entry(entries, alias),
    ensures
        distinct_aliases(entries.push((alias, value))),
        table(entries.push((alias, value))) == table(entries).insert(alias, value),
{
    let grown = entries.push((alias, value));
    assert forall|i: int, j: int| 0 <= i < j < grown.len() implies #[trigger] grown[i].0
        != #[trigger] grown[j].0 by {
        if j == entries.len() {
            assert(!entry_is(entries, alias, i));
        }
    }
    assert forall|k: Seq<char>| #[trigger] has_entry(grown, k) == (k == alias || has_entry(
        entries,
        k,
    )) by {
        if has_entry(grown, k) {
            let i = choose|i: int| entry_is(grown, k, i);
            if i < entries.len() {
                assert(entry_is(entries, k, i));
            }
        }
        if k == alias {
            assert(entry_is(grown, k, entries.len() as int));
        }
        if has_entry(entries, k) {
            let i = choose|i: int| entry_is(entries, k, i);
            assert(entry_is(grown, k, i));
        }
    }
    assert forall|k: Seq<char>| has_entry(grown, k) implies #[trigger] table(grown)[k] == table(
        entries,
    ).insert(alias, value)[k] by {
        let i = choose|i: int| entry_is(grown, k, i);
        lemma_table_entry(grown, i);
        if i < entries.len() {
            assert(entry_is(entries, k, i));
            lemma_table_entry(entries, i);
            assert(!entry_is(entries, alias, i));
        }
    }
    assert(table(grown) =~= table(entries).insert(alias, value));
}

proof fn lemma_table_update<T>(entries: Seq<(Seq<char>, T)>, at: int, value: T)
    requires
        distinct_aliases(entries),
        0 <= at < entries.len(),
    ensures
        distinct_aliases(entries.update(at, (entries[at].0, value))),
        table(entries.update(at, (entries[at].0, value))) == table(entries).insert(
            entries[at].0,
            value,
        ),
{
    let alias = entries[at].0;
    let changed = entries.update(at, (alias, value));
    assert forall|i: int, j: int| 0 <= i < j < changed.len() implies #[trigger] changed[i].0
        != #[trigger] changed[j].0 by {
        assert(entries[i].0 != entries[j].0);
    }
    assert forall|k: Seq<char>| #[trigger] has_entry(changed, k) == has_entry(entries, k) by {
        if has_entry(changed, k) {
            let i = choose|i: int| entry_is(changed, k, i);
            assert(entry_is(entries, k, i));
        }
        if has_entry(entries, k) {
            let i = choose|i: int| entry_is(entries, k, i);
            assert(entry_is(changed, k, i));
        }
    }
    assert(entry_is(entries, alias, at));
    assert forall|k: Seq<char>| has_entry(changed, k) implies #[trigger] table(changed)[k]
        == table(entries).insert(alias, value)[k] by {
        let i = choose|i: int| entry_is(changed, k, i);
        lemma_table_entry(changed, i);
        lemma_table_entry(entries, i);
        if i != at {
            assert(entries[i].0 != alias) by {
                if i < at {
                    assert(entries[i].0 != entries[at].0);
                } else {
                    assert(entries[at].0 != entries[i].0);
                }
            }
        }
    }
    assert(table(changed) =~= table(entries).insert(alias, value));
}

proof fn lemma_table_remove<T>(entries: Seq<(Seq<char>, T)>, at: int)
    requires
        distinct_aliases(entries),
        0 <= at < entries.len(),
    ensures
        distinct_aliases(entries.remove(at)),
        table(entries.remove(at)) == table(entries).remove(entries[at].0),
{
    let alias = entries[at].0;
    let left = entries.remove(at);
    assert forall|i: int| 0 <= i < left.len() implies #[trigger] left[i] == entries[if i < at {
        i
    } else {
        i + 1
    }] by {}
    assert forall|i: int, j: int| 0 <= i < j < left.len() implies #[trigger] left[i].0
        != #[trigger] left[j].0 by {
        let x = if i < at { i } else { i + 1 };
        let y = if j < at { j } else { j + 1 };
        assert(entries[x].0 != entries[y].0);
    }
    assert forall|k: Seq<char>| #[trigger] has_entry(left, k) == (k != alias && has_entry(
        entries,
        k,
    )) by {
        if has_entry(left, k) {
            let i = choose|i: int| entry_is(left, k, i);
            let x = if i < at { i } else { i + 1 };
            assert(left[i] == entries[x]);
            assert(entry_is(entries, k, x));
            if x < at {
                assert(entries[x].0 != entries[at].0);
            } else {
                assert(entries[at].0 != entries[x].0);
            }
        }
        if k != alias && has_entry(entries, k) {
            let x = choose|x: int| entry_is(entries, k, x);
            let i = if x < at { x } else { x - 1 };
            assert(left[i] == entries[x]);
            assert(entry_is(left, k, i));
        }
    }
    assert forall|k: Seq<char>| has_entry(left, k) implies #[trigger] table(left)[k] == table(
        entries,
    ).remove(alias)[k] by {
        let i = choose|i: int| entry_is(left, k, i);
        let x = if i < at { i } else { i + 1 };
        assert(left[i] == entries[x]);
        lemma_table_entry(left, i);
        lemma_table_entry(entries, x);
    }
    assert(table(left) =~= table(entries).remove(alias));
}

impl<T> View for AliasMap<T> {
    type V = Map<Seq<char>, T>;

    open spec fn view(&self) -> Map<Seq<char>, T> {
        table(self.entries())
    }
}

impl<T> AliasMap<T> {
    /// The entries, in order.
    pub closed spec fn entries(&self) -> Seq<(Seq<char>, T)> {
        self.rows@.map_values(|row: (String, T)| (row.0@, row.1))
    }

    /// Each alias has one entry.
    pub open spec fn wf(&self) -> bool {
        distinct_aliases(self.entries())
    }

    /// A table without entries.
    pub fn new() -> (out: Self)
        ensures
            out.wf(),
            out.entries() == Seq::<(Seq<char>, T)>::empty(),
            out@ == Map::<Seq<char>, T>::empty(),
    {
        let out = AliasMap { rows: Vec::new() };
        proof {
            assert(out.entries() =~= Seq::<(Seq<char>, T)>::empty());
            assert(out@ =~= Map::<Seq<char>, T>::empty());
        }
        out
    }

    /// The number of entries.
    pub fn len(&self) -> (n: usize)
        ensures
            n == self.entries().len(),
    {
        self.rows.len()
    }

    /// The alias of the entry at `i`.
    pub fn alias_at(&self, i: usize) -> (alias: &String)
        requires
            i < self.entries().len(),
        ensures
            alias@ == self.entries()[i as int].0,
    {
        &self.rows[i].0
    }

    /// The value of the entry at `i`.
    pub fn value_at(&self, i: usize) -> (value: &T)
        requires
            i < self.entries().len(),
        ensures
            *value == self.entries()[i as int].1,
    {
        &self.rows[i].1
    }

    /// The position of the entry for `alias`.
    pub fn position(&self, alias: &str) -> (at: Option<usize>)
        ensures
            match at {
                Some(i) => entry_is(self.entries(), alias@, i as int),
                None => !has_entry(self.entries(), alias@),
            },
    {
        let mut i: usize = 0;
        while i < self.rows.len()
            invariant
                i <= self.rows@.len(),
                self.entries().len() == self.rows@.len(),
                forall|j: int| 0 <= j < i ==> !entry_is(self.entries(), alias@, j),
            decreases self.rows@.len() - i,
        {
            if same_text(self.rows[i].0.as_str(), alias) {
                return Some(i);
            }
            i = i + 1;
        }
        None
    }

    /// Whether there is an entry for `alias`.
    pub fn contains_key(&self, alias: &str) -> (found: bool)
        ensures
            found == self@.contains_key(alias@),
    {
        match self.position(alias) {
            Some(_) => true,
            None => false,
        }
    }

    /// The value under `alias`.
    pub fn get(&self, alias: &str) -> (value: Option<&T>)
        requires
            self.wf(),
        ensures
            match value {
                Some(v) => self@.contains_key(alias@) && *v == self@[alias@],
                None => !self@.contains_key(alias@),
            },
    {
        match self.position(alias) {
            Some(i) => {
                proof {
                    lemma_table_entry(self.entries(), i as int);
                }
                Some(&self.rows[i].1)
            },
            None => None,
        }
    }

    /// Puts `value` under `alias`, in place of what was there.
    pub fn insert(&mut self, alias: String, value: T)
        requires
            old(self).wf(),
        ensures
            final(self).wf(),
            final(self)@ == old(self)@.insert(alias@, value),
            has_entry(old(self).entries(), alias@) ==> (exists|i: int|
                entry_is(old(self).entries(), alias@, i) && final(self).entries() == old(
                    self,
                ).entries().update(i, (alias@, value))),
            !has_entry(old(self).entries(), alias@) ==> final(self).entries() == old(
                self,
            ).entries().push((alias@, value)),
    {
        let ghost before = self.entries();
        match self.position(alias.as_str()) {
            Some(i) => {
                self.set_value(i, value);
                proof {
                    assert(entry_is(before, alias@, i as int));
                }
            },
            None => {
                proof {
                    lemma_table_push(before, alias@, value);
                }
                self.rows.push((alias, value));
                proof {
                    assert(self.entries() =~= before.push((alias@, value)));
                }
            },
        }
    }

    /// Puts `value` in place of the value of the entry at `i`.
    pub fn set_value(&mut self, i: usize, value: T)
        requires
            old(self).wf(),
            i < old(self).entries().len(),
        ensures
            final(self).wf(),
            final(self).entries() == old(self).entries().update(
                i as int,
                (old(self).entries()[i as int].0, value),
            ),
            final(self)@ == old(self)@.insert(old(self).entries()[i as int].0, value),
    {
        let ghost before = self.entries();
        proof {
            lemma_table_update(before, i as int, value);
        }
        let row = self.rows.remove(i);
        self.rows.insert(i, (row.0, value));
        proof {
            assert(self.entries() =~= before.update(i as int, (before[i as int].0, value)));
        }
    }

    /// Takes the entry for `alias` out, if there is one.
    pub fn remove(&mut self, alias: &str)
        requires
            old(self).wf(),
        ensures
            final(self).wf(),
            final(self)@ == old(self)@.remove(alias@),
            has_entry(old(self).entries(), alias@) ==> (exists|i: int|
                entry_is(old(self).entries(), alias@, i) && final(self).entries() == old(
                    self,
                ).entries().remove(i)),
            !has_entry(old(self).entries(), alias@) ==> final(self).entries() == old(
                self,
            ).entries(),
    {
        let ghost before = self.entries();
        match self.position(alias) {
            Some(i) => {
                proof {
                    lemma_table_remove(before, i as int);
                }
                let _ = self.rows.remove(i);
                proof {
                    assert(self.entries() =~= before.remove(i as int));
                    assert(entry_is(before, alias@, i as int));
                }
            },
            None => {
                proof {
                    assert(self@ =~= self@.remove(alias@));
                }
            },
        }
    }
}

// ---------------------------------------------------------------------------
// Sets
// ---------------------------------------------------------------------------

/// A set of names.
#[derive(Debug)]
pub struct NameSet {
    names: Vec<String>,
}

impl View for NameSet {
    type V = Set<Seq<char>>;

    open spec fn view(&self) -> Set<Seq<char>> {
        self.listed().to_set()
    }
}

impl NameSet {
    /// The names, in order.
    pub closed spec fn listed(&self) -> Seq<Seq<char>> {
        self.names@.map_values(|name: String| name@)
    }

    /// Each name is listed once.
    pub open spec fn wf(&self) -> bool {
        self.listed().no_duplicates()
    }

    /// The empty set.
    pub fn new() -> (out: Self)
        ensures
            out.wf(),
            out.listed() == Seq::<Seq<char>>::empty(),
            out@ == Set::<Seq<char>>::empty(),
    {
        let out = NameSet { names: Vec::new() };
        proof {
            assert(out.listed() =~= Seq::<Seq<char>>::empty());
            assert(out@ =~= Set::<Seq<char>>::empty());
        }
        out
    }

    /// The number of names.
    pub fn len(&self) -> (n: usize)
        ensures
            n == self.listed().len(),
    {
        self.names.len()
    }

    /// The name at `i`.
    pub fn name_at(&self, i: usize) -> (name: &String)
        requires
            i < self.listed().len(),
        ensures
            name@ == self.listed()[i as int],
            self@.contains(name@),
    {
        proof {
            assert(self.listed().contains(self.listed()[i as int]));
        }
        &self.names[i]
    }

    /// Whether `name` is in the set.
    pub fn contains(&self, name: &str) -> (found: bool)
        ensures
            found == self@.contains(name@),
    {
        let mut i: usize = 0;
        while i < self.names.len()
            invariant
                i <= self.names@.len(),
                self.listed().len() == self.names@.len(),
                forall|j: int| 0 <= j < i ==> self.listed()[j] != name@,
            decreases self.names@.len() - i,
        {
            if same_text(self.names[i].as_str(), name) {
                proof {
                    assert(self.listed()[i as int] == name@);
                    assert(self.listed().contains(name@));
                }
                return true;
            }
            i = i + 1;
        }
        false
    }

    /// Puts `name` into the set.
    pub fn insert(&mut self, name: String)
        requires
            old(self).wf(),
        ensures
            final(self).wf(),
            final(self)@ == old(self)@.insert(name@),
            final(self).listed() == (if old(self)@.contains(name@) {
                old(self).listed()
            } else {
                old(self).listed().push(name@)
            }),
    {
        let ghost before = self.listed();
        if self.contains(name.as_str()) {
            proof {
                assert(self@ =~= self@.insert(name@));
            }
            return ;
        }
        self.names.push(name);
        proof {
            assert(self.listed() =~= before.push(name@));
            assert(before.push(name@).no_duplicates()) by {
                assert forall|i: int, j: int|
                    0 <= i < before.len() + 1 && 0 <= j < before.len() + 1 && i != j implies
                    before.push(name@)[i] != before.push(name@)[j] by {
                    assert(!before.contains(name@));
                    if i == before.len() {
                        assert(before.contains(before[j]));
                    } else if j == before.len() {
                        assert(before.contains(before[i]));
                    }
                }
            }
            assert(before.push(name@).to_set() =~= before.to_set().insert(name@)) by {
                assert forall|k: Seq<char>| before.push(name@).contains(k) == (k == name@
                    || before.contains(k)) by {
                    if before.contains(k) {
                        let i = choose|i: int| 0 <= i < before.len() && before[i] == k;
                        assert(before.push(name@)[i] == k);
                    }
                    if k == name@ {
                        assert(before.push(name@)[before.len() as int] == k);
                    }
                }
            }
        }
    }
}

} // verus!
