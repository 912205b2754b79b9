//! JSON values as plain data: what a tool call's arguments and a log event's
//! attributes are made of.

use vstd::prelude::*;

use crate::text::same_text;

verus! {

/// A JSON number. Each number has one form: a whole number of at least zero
/// is `PosInt`, one below zero is `NegInt`.
#[derive(Clone, Copy, PartialEq, Eq, Structural, Debug)]
pub enum JsonNumber {
    /// A whole number that is zero or greater.
    PosInt(u64),
    /// A whole number below zero.
    NegInt(i64),
    /// Any other number, as the bits of its double-precision form.
    Float(u64),
}

/// A JSON value.
#[derive(Debug)]
pub enum Json {
    Null,
    Bool(bool),
    Number(JsonNumber),
    Text(String),
    Array(Vec<Json>),
    /// The members in order, each with its key.
    Object(Vec<(String, Json)>),
}

/// A JSON value with texts and lists as sequences.
pub enum JsonView {
    Null,
    Bool(bool),
    Number(JsonNumber),
    Text(Seq<char>),
    Array(Seq<JsonView>),
    Object(Seq<(Seq<char>, JsonView)>),
}

impl View for Json {
    type V = JsonView;

    open spec fn view(&self) -> JsonView {
        json_view(*self)
    }
}

/// The value with texts and lists as sequences.
pub open spec fn json_view(value: Json) -> JsonView
    decreases value,
{
    match value {
        Json::Null => JsonView::Null,
        Json::Bool(b) => JsonView::Bool(b),
        Json::Number(n) => JsonView::Number(n),
        Json::Text(s) => JsonView::Text(s@),
        Json::Array(items) => JsonView::Array(
            Seq::new(
                items@.len(),
                |i: int|
                    if 0 <= i < items@.len() {
                        json_view(items@[i])
                    } else {
                        JsonView::Null
                    },
            ),
        ),
        Json::Object(members) => JsonView::Object(
            Seq::new(
                members@.len(),
                |i: int|
                    if 0 <= i < members@.len() {
                        (members@[i].0@, json_view(members@[i].1))
                    } else {
                        (Seq::empty(), JsonView::Null)
                    },
            ),
        ),
    }
}

/// The value of the first member with the key `key`.
pub open spec fn member_of(members: Seq<(Seq<char>, JsonView)>, key: Seq<char>) -> Option<
    JsonView,
>
    decreases members.len(),
{
    if members.len() == 0 {
        None
    } else if members[0].0 == key {
        Some(members[0].1)
    } else {
        member_of(members.drop_first(), key)
    }
}

impl JsonView {
    /// The member `key` of an object. Any other value has no members.
    pub open spec fn member(self, key: Seq<char>) -> Option<JsonView> {
        match self {
            JsonView::Object(members) => member_of(members, key),
            _ => None,
        }
    }

    /// The text of a text value.
    pub open spec fn text(self) -> Option<Seq<char>> {
        match self {
            JsonView::Text(s) => Some(s),
            _ => None,
        }
    }

    /// The number of a whole number that is zero or greater.
    pub open spec fn whole(self) -> Option<u64> {
        match self {
            JsonView::Number(JsonNumber::PosInt(n)) => Some(n),
            _ => None,
        }
    }

    /// The number of a number value.
    pub open spec fn number(self) -> Option<JsonNumber> {
        match self {
            JsonView::Number(n) => Some(n),
            _ => None,
        }
    }

    /// The text of the member `key`, where it is a text.
    pub open spec fn text_member(self, key: Seq<char>) -> Option<Seq<char>> {
        match self.member(key) {
            Some(v) => v.text(),
            None => None,
        }
    }

    /// The number of the member `key`, where it is a whole number that is
    /// zero or greater.
    pub open spec fn whole_member(self, key: Seq<char>) -> Option<u64> {
        match self.member(key) {
            Some(v) => v.whole(),
            None => None,
        }
    }

    /// The number of the member `key`, where it is a number.
    pub open spec fn number_member(self, key: Seq<char>) -> Option<JsonNumber> {
        match self.member(key) {
            Some(v) => v.number(),
            None => None,
        }
    }
}

/// The form that a signed whole number has.
pub open spec fn signed(n: i64) -> JsonNumber {
    if n >= 0 {
        JsonNumber::PosInt(n as u64)
    } else {
        JsonNumber::NegInt(n)
    }
}

/// The form that a signed whole number has.
pub fn signed_number(n: i64) -> (out: JsonNumber)
    ensures
        out == signed(n),
{
    if n >= 0 {
        JsonNumber::PosInt(n as u64)
    } else {
        JsonNumber::NegInt(n)
    }
}

impl Json {
    /// The member `key` of an object. Any other value has no members.
    pub fn get(&self, key: &str) -> (out: Option<&Json>)
        ensures
            match out {
                Some(v) => self@.member(key@) == Some(v@),
                None => self@.member(key@) is None,
            },
    {
        match self {
            Json::Object(members) => {
                let ghost all = self@->Object_0;
                let mut i: usize = 0;
                proof {
                    assert(all.skip(0) =~= all);
                }
                while i < members.len()
                    invariant
                        i <= members@.len(),
                        *self == Json::Object(*members),
                        all == self@->Object_0,
                        all.len() == members@.len(),
                        member_of(all, key@) == member_of(all.skip(i as int), key@),
                    decreases members@.len() - i,
                {
                    proof {
                        assert(all[i as int] == (members@[i as int].0@, members@[i as int].1@));
                        assert(all.skip(i as int).drop_first() =~= all.skip(i + 1));
                    }
                    if same_text(members[i].0.as_str(), key) {
                        return Some(&members[i].1);
                    }
                    i = i + 1;
                }
                None
            },
            _ => None,
        }
    }

    /// A copy of the text of the member `key`, where it is a text.
    pub fn get_text(&self, key: &str) -> (out: Option<String>)
        ensures
            match out {
                Some(s) => self@.text_member(key@) == Some(s@),
                None => self@.text_member(key@) is None,
            },
    {
        match self.get(key) {
            Some(Json::Text(s)) => Some(s.clone()),
            _ => None,
        }
    }

    /// The number of the member `key`, where it is a whole number that is
    /// zero or greater.
    pub fn get_whole(&self, key: &str) -> (out: Option<u64>)
        ensures
            out == self@.whole_member(key@),
    {
        match self.get(key) {
            Some(Json::Number(JsonNumber::PosInt(n))) => Some(*n),
            _ => None,
        }
    }

    /// The number of the member `key`, where it is a number.
    pub fn get_number(&self, key: &str) -> (out: Option<JsonNumber>)
        ensures
            out == self@.number_member(key@),
    {
        match self.get(key) {
            Some(Json::Number(n)) => Some(*n),
            _ => None,
        }
    }
}

// ---------------------------------------------------------------------------
// Putting values together
// ---------------------------------------------------------------------------

/// Members of an object, with keys and values as sequences.
pub open spec fn members_view(members: Seq<(String, Json)>) -> Seq<(Seq<char>, JsonView)> {
    Seq::new(members.len(), |i: int| (members[i].0@, members[i].1@))
}

/// Items of an array as sequences.
pub open spec fn items_view(items: Seq<Json>) -> Seq<JsonView> {
    Seq::new(items.len(), |i: int| items[i]@)
}

/// Adds a member at the end.
pub fn push_member(members: &mut Vec<(String, Json)>, key: &str, value: Json)
    ensures
        members_view(final(members)@) == members_view(old(members)@).push((key@, value@)),
{
    members.push((key.to_owned(), value));
    proof {
        assert(members_view(members@) =~= members_view(old(members)@).push((key@, value@)));
    }
}

/// Adds a text member at the end.
pub fn push_text(members: &mut Vec<(String, Json)>, key: &str, value: &str)
    ensures
        members_view(final(members)@) == members_view(old(members)@).push(
            (key@, JsonView::Text(value@)),
        ),
{
    push_member(members, key, text_value(value));
}

/// The text `s` as a value.
pub fn text_value(s: &str) -> (out: Json)
    ensures
        out@ == JsonView::Text(s@),
{
    Json::Text(s.to_owned())
}

/// An object of these members.
pub fn object_value(members: Vec<(String, Json)>) -> (out: Json)
    ensures
        out@ == JsonView::Object(members_view(members@)),
{
    let out = Json::Object(members);
    proof {
        assert(out@->Object_0 =~= members_view(members@));
    }
    out
}

/// An array of these items.
pub fn array_value(items: Vec<Json>) -> (out: Json)
    ensures
        out@ == JsonView::Array(items_view(items@)),
{
    let out = Json::Array(items);
    proof {
        assert(out@->Array_0 =~= items_view(items@));
    }
    out
}

// ---------------------------------------------------------------------------
// Laws
// ---------------------------------------------------------------------------

/// `value` is an object whose first member with the key `key` is `member`.
pub open spec fn holds(value: JsonView, key: Seq<char>, member: JsonView) -> bool {
    value is Object && exists|i: int|
        {
            &&& 0 <= i < value->Object_0.len()
            &&& #[trigger] value->Object_0[i] == (key, member)
            &&& forall|j: int| 0 <= j < i ==> #[trigger] value->Object_0[j].0 != key
        }
}

/// The member that an object holds is the one that is looked up.
pub proof fn lemma_holds(value: JsonView, key: Seq<char>)
    ensures
        forall|member: JsonView| #[trigger]
            holds(value, key, member) <==> value.member(key) == Some(member),
{
    assert forall|member: JsonView| #[trigger] holds(value, key, member) <==> value.member(key)
        == Some(member) by {
        if value is Object {
            lemma_first_member(value->Object_0, key, member);
        }
    }
}

proof fn lemma_first_member(members: Seq<(Seq<char>, JsonView)>, key: Seq<char>, member: JsonView)
    ensures
        member_of(members, key) == Some(member) <==> exists|i: int|
            {
                &&& 0 <= i < members.len()
                &&& #[trigger] members[i] == (key, member)
                &&& forall|j: int| 0 <= j < i ==> #[trigger] members[j].0 != key
            },
    decreases members.len(),
{
    if members.len() > 0 {
        let rest = members.drop_first();
        lemma_first_member(rest, key, member);
        if members[0].0 == key {
            if members[0].1 == member {
                assert(members[0] == (key, member));
            }
        } else {
            if member_of(rest, key) == Some(member) {
                let i = choose|i: int|
                    {
                        &&& 0 <= i < rest.len()
                        &&& #[trigger] rest[i] == (key, member)
                        &&& forall|j: int| 0 <= j < i ==> #[trigger] rest[j].0 != key
                    };
                assert(members[i + 1] == (key, member));
                assert forall|j: int| 0 <= j < i + 1 implies #[trigger] members[j].0 != key by {
                    if j > 0 {
                        assert(rest[j - 1].0 != key);
                    }
                }
            }
            if exists|i: int|
                {
                    &&& 0 <= i < members.len()
                    &&& #[trigger] members[i] == (key, member)
                    &&& forall|j: int| 0 <= j < i ==> #[trigger] members[j].0 != key
                } {
                let i = choose|i: int|
                    {
                        &&& 0 <= i < members.len()
                        &&& #[trigger] members[i] == (key, member)
                        &&& forall|j: int| 0 <= j < i ==> #[trigger] members[j].0 != key
                    };
                assert(rest[i - 1] == (key, member));
                assert forall|j: int| 0 <= j < i - 1 implies #[trigger] rest[j].0 != key by {
                    assert(members[j + 1].0 != key);
                }
            }
        }
    }
}

/// What is looked up under a key is the first member with that key, taken for
/// what it is: a text for a text, a number for a number, a whole number that is
/// not below zero for one.
pub proof fn law_members_are_looked_up(
    value: JsonView,
    key: Seq<char>,
    text: Seq<char>,
    whole: u64,
    number: JsonNumber,
)
    ensures
        value.text_member(key) == Some(text) <==> holds(value, key, JsonView::Text(text)),
        value.whole_member(key) == Some(whole) <==> holds(
            value,
            key,
            JsonView::Number(JsonNumber::PosInt(whole)),
        ),
        value.number_member(key) == Some(number) <==> holds(
            value,
            key,
            JsonView::Number(number),
        ),
{
    lemma_holds(value, key);
}

} // verus!
