//! The fields of a tracing call that have no place of their own in a log
//! event. A JSON object map says under which names there is a value; the
//! values stand beside it.

use vstd::prelude::*;

use crate::json::Json;
#[allow(unused_imports)]
use crate::json::{member_of, JsonView};

verus! {

// ---------------------------------------------------------------------------
// The JSON object map
// ---------------------------------------------------------------------------

/// `serde_json::Map`, a map from key to JSON value.
#[verifier::external_type_specification]
#[verifier::external_body]
#[verifier::reject_recursive_types(K)]
#[verifier::reject_recursive_types(V)]
pub struct ExJsonMap<K, V>(serde_json::Map<K, V>);

/// `serde_json::Value`, a JSON value.
#[verifier::external_type_specification]
#[verifier::external_body]
pub struct ExJsonValue(serde_json::Value);

/// What a `serde_json::Map` holds: under each of its keys, the number that
/// `Value::as_u64` reads from the value there, or zero where it reads none.
pub uninterp spec fn slots(map: serde_json::Map<String, serde_json::Value>) -> Map<Seq<char>, u64>;

/// No key has a number.
pub open spec fn no_slots() -> Map<Seq<char>, u64> {
    Map::empty()
}

/// The list holds each key of the map once, with its number.
pub open spec fn lists_slots(list: Seq<(String, u64)>, map: Map<Seq<char>, u64>) -> bool {
    &&& forall|i: int|
        0 <= i < list.len() ==> map.contains_key(#[trigger] list[i].0@) && map[list[i].0@]
            == list[i].1
    &&& forall|i: int, j: int|
        0 <= i < j < list.len() ==> #[trigger] list[i].0@ != #[trigger] list[j].0@
    &&& forall|key: Seq<char>|
        #[trigger] map.contains_key(key) ==> exists|i: int|
            0 <= i < list.len() && #[trigger] list[i].0@ == key
}

/// `serde_json::Map::new` makes a map without keys.
#[verifier::external_body]
fn new_slots() -> (map: serde_json::Map<String, serde_json::Value>)
    ensures
        slots(map) == no_slots(),
{
    serde_json::Map::new()
}

/// `serde_json::Map::insert` puts a value under a key, in place of the value
/// that was there. The value put here is the JSON number for `slot`, from
/// which `as_u64` reads `slot`.
#[verifier::external_body]
fn insert_slot(map: &mut serde_json::Map<String, serde_json::Value>, key: &str, slot: u64)
    ensures
        slots(*final(map)) == slots(*old(map)).insert(key@, slot),
{
    map.insert(key.to_string(), serde_json::Value::from(slot));
}

/// `serde_json::Map::is_empty` tells whether the map has no keys.
#[verifier::external_body]
fn has_no_slots(map: &serde_json::Map<String, serde_json::Value>) -> (empty: bool)
    ensures
        empty == (slots(*map) == no_slots()),
{
    map.is_empty()
}

/// `serde_json::Map::into_iter` hands out each key once, with its value; the
/// value is read as a number by `as_u64`.
#[verifier::external_body]
fn list_slots(map: serde_json::Map<String, serde_json::Value>) -> (list: Vec<(String, u64)>)
    ensures
        lists_slots(list@, slots(map)),
{
    map.into_iter().map(|(key, value)| (key, value.as_u64().unwrap_or(0))).collect()
}

// ---------------------------------------------------------------------------
// Extra fields
// ---------------------------------------------------------------------------

/// Named JSON values.
pub struct ExtraFields {
    index: serde_json::Map<String, serde_json::Value>,
    values: Vec<Json>,
}

impl View for ExtraFields {
    type V = Map<Seq<char>, JsonView>;

    closed spec fn view(&self) -> Map<Seq<char>, JsonView> {
        Map::new(
            |name: Seq<char>| slots(self.index).contains_key(name),
            |name: Seq<char>| self.values@[slots(self.index)[name] as int]@,
        )
    }
}

/// `object` is a JSON object with one member for each of the named values.
pub open spec fn object_of(object: JsonView, fields: Map<Seq<char>, JsonView>) -> bool {
    match object {
        JsonView::Object(members) => {
            &&& forall|i: int|
                0 <= i < members.len() ==> fields.contains_key(#[trigger] members[i].0)
                    && fields[members[i].0] == members[i].1
            &&& forall|i: int, j: int|
                0 <= i < j < members.len() ==> #[trigger] members[i].0 != #[trigger] members[j].0
            &&& forall|name: Seq<char>|
                #[trigger] fields.contains_key(name) ==> exists|i: int|
                    0 <= i < members.len() && #[trigger] members[i].0 == name
        },
        _ => false,
    }
}

/// The object made of named values gives each of them back under its name,
/// and nothing under any other name.
pub proof fn law_object_reads_back(
    object: JsonView,
    fields: Map<Seq<char>, JsonView>,
    name: Seq<char>,
)
    requires
        object_of(object, fields),
    ensures
        object.member(name) == (if fields.contains_key(name) {
            Some(fields[name])
        } else {
            None
        }),
{
    let members = object->Object_0;
    lemma_member_of(members, name);
    if fields.contains_key(name) {
        let i = choose|i: int| 0 <= i < members.len() && #[trigger] members[i].0 == name;
        assert(members[i].0 == name);
    }
}

proof fn lemma_member_of(members: Seq<(Seq<char>, JsonView)>, name: Seq<char>)
    ensures
        match member_of(members, name) {
            Some(v) => exists|i: int|
                0 <= i < members.len() && #[trigger] members[i].0 == name && members[i].1 == v,
            None => forall|i: int| 0 <= i < members.len() ==> #[trigger] members[i].0 != name,
        },
    decreases members.len(),
{
    if members.len() > 0 {
        let rest = members.drop_first();
        lemma_member_of(rest, name);
        if members[0].0 != name {
            match member_of(rest, name) {
                Some(v) => {
                    let i = choose|i: int|
                        0 <= i < rest.len() && #[trigger] rest[i].0 == name && rest[i].1 == v;
                    assert(members[i + 1].0 == name && members[i + 1].1 == v);
                },
                None => {
                    assert forall|i: int| 0 <= i < members.len() implies #[trigger] members[i].0
                        != name by {
                        if i > 0 {
                            assert(rest[i - 1].0 != name);
                        }
                    }
                },
            }
        }
    }
}

impl ExtraFields {
    /// Each name leads to a value, and no two names to the same one.
    pub closed spec fn wf(&self) -> bool {
        &&& forall|name: Seq<char>|
            #[trigger] slots(self.index).contains_key(name) ==> slots(self.index)[name]
                < self.values@.len()
        &&& forall|a: Seq<char>, b: Seq<char>|
            a != b && #[trigger] slots(self.index).contains_key(a) && #[trigger] slots(
                self.index,
            ).contains_key(b) ==> slots(self.index)[a] != slots(self.index)[b]
    }

    /// No values.
    pub fn new() -> (out: Self)
        ensures
            out.wf(),
            out@ == Map::<Seq<char>, JsonView>::empty(),
    {
        let out = ExtraFields { index: new_slots(), values: Vec::new() };
        proof {
            assert(out@ =~= Map::<Seq<char>, JsonView>::empty());
        }
        out
    }

    /// Puts `value` under `name`, in place of what was there.
    pub fn insert(&mut self, name: &str, value: Json)
        requires
            old(self).wf(),
        ensures
            final(self).wf(),
            final(self)@ == old(self)@.insert(name@, value@),
    {
        let ghost before = *self;
        let slot: usize = self.values.len();
        insert_slot(&mut self.index, name, slot as u64);
        self.values.push(value);
        proof {
            assert forall|key: Seq<char>| #[trigger]
                slots(self.index).contains_key(key) implies slots(self.index)[key]
                < self.values@.len() by {
                if key != name@ {
                    assert(slots(before.index).contains_key(key));
                }
            }
            assert forall|a: Seq<char>, b: Seq<char>|
                a != b && #[trigger] slots(self.index).contains_key(a) && #[trigger] slots(
                    self.index,
                ).contains_key(b) implies slots(self.index)[a] != slots(self.index)[b] by {
                if a != name@ {
                    assert(slots(before.index).contains_key(a));
                }
                if b != name@ {
                    assert(slots(before.index).contains_key(b));
                }
            }
            assert(self@ =~= before@.insert(name@, value@)) by {
                assert forall|key: Seq<char>| #[trigger]
                    self@.contains_key(key) implies self@[key] == before@.insert(
                    name@,
                    value@,
                )[key] by {
                    if key != name@ {
                        assert(slots(before.index).contains_key(key));
                    }
                }
            }
        }
    }

    /// Whether there is no value.
    pub fn is_empty(&self) -> (empty: bool)
        ensures
            empty == (self@ == Map::<Seq<char>, JsonView>::empty()),
    {
        let empty = has_no_slots(&self.index);
        proof {
            if empty {
                assert(self@ =~= Map::<Seq<char>, JsonView>::empty());
            } else if self@ == Map::<Seq<char>, JsonView>::empty() {
                assert forall|key: Seq<char>| !slots(self.index).contains_key(key) by {
                    assert(!self@.contains_key(key));
                }
                assert(slots(self.index) =~= no_slots());
            }
        }
        empty
    }

    /// The values as one JSON object.
    pub fn into_object(self) -> (out: Json)
        requires
            self.wf(),
        ensures
            object_of(out@, self@),
    {
        let ghost fields = self@;
        let ghost map = slots(self.index);
        let ghost all = self.values@;
        let ExtraFields { index, mut values } = self;
        let list = list_slots(index);
        let mut members: Vec<(String, Json)> = Vec::new();
        let mut i: usize = 0;
        while i < list.len()
            invariant
                lists_slots(list@, map),
                values@.len() == all.len(),
                forall|name: Seq<char>| #[trigger]
                    map.contains_key(name) ==> map[name] < all.len() && fields.contains_key(name)
                        && fields[name] == all[map[name] as int]@,
                forall|a: Seq<char>, b: Seq<char>|
                    a != b && #[trigger] map.contains_key(a) && #[trigger] map.contains_key(b)
                        ==> map[a] != map[b],
                i <= list@.len(),
                members@.len() == i,
                forall|j: int|
                    0 <= j < i ==> (#[trigger] members@[j]).0@ == list@[j].0@ && members@[j].1@
                        == fields[list@[j].0@],
                forall|j: int|
                    i <= j < list@.len() ==> values@[(#[trigger] list@[j]).1 as int]
                        == all[list@[j].1 as int],
            decreases list@.len() - i,
        {
            let name = list[i].0.clone();
            let slot: usize = list[i].1 as usize;
            let ghost before = values@;
            proof {
                assert(map.contains_key(list@[i as int].0@));
            }
            let value = values.remove(slot);
            values.insert(slot, Json::Null);
            proof {
                assert forall|j: int| i < j < list@.len() implies values@[(
                #[trigger] list@[j]).1 as int] == all[list@[j].1 as int] by {
                    assert(map.contains_key(list@[j].0@));
                    assert(list@[i as int].0@ != list@[j].0@);
                    assert(before[list@[j].1 as int] == all[list@[j].1 as int]);
                }
            }
            members.push((name, value));
            i = i + 1;
        }
        let out = Json::Object(members);
        proof {
            let shown = out@->Object_0;
            assert(shown.len() == list@.len());
            assert forall|j: int| 0 <= j < shown.len() implies (#[trigger] shown[j]).0 == list@[j].0@
                && shown[j].1 == fields[list@[j].0@] by {
                assert(members@[j].0@ == list@[j].0@);
            }
            assert forall|name: Seq<char>| #[trigger] fields.contains_key(name) implies exists|
                j: int,
            | 0 <= j < shown.len() && #[trigger] shown[j].0 == name by {
                assert(map.contains_key(name));
                let j = choose|j: int| 0 <= j < list@.len() && #[trigger] list@[j].0@ == name;
                assert(shown[j].0 == name);
            }
            assert forall|j: int, k: int| 0 <= j < k < shown.len() implies #[trigger] shown[j].0
                != #[trigger] shown[k].0 by {
                assert(list@[j].0@ != list@[k].0@);
            }
            assert forall|j: int| 0 <= j < shown.len() implies fields.contains_key(
                #[trigger] shown[j].0,
            ) && fields[shown[j].0] == shown[j].1 by {
                assert(map.contains_key(list@[j].0@));
            }
        }
        out
    }
}

} // verus!
