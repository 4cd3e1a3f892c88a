//! JSON values, as far as the library reads them.

use vstd::prelude::*;

use crate::text::same;

verus! {

/// A JSON value. A number that is no unsigned integer of 64 bits is kept as
/// text; an object is its members in order, no two of them with the same key.
#[derive(Debug)]
pub enum Json {
    Null,
    Bool(bool),
    Unsigned(u64),
    OtherNumber(String),
    Text(String),
    Array(Vec<Json>),
    Object(Vec<(String, Json)>),
}

/// The value of the member with a key, the first where there are several.
pub open spec fn member(members: Seq<(String, Json)>, key: Seq<char>) -> Option<Json>
    decreases members.len(),
{
    if members.len() == 0 {
        None
    } else if members[0].0@ == key {
        Some(members[0].1)
    } else {
        member(members.drop_first(), key)
    }
}

impl Json {
    /// The value of an object's member. Other values have none.
    pub open spec fn field(self, key: Seq<char>) -> Option<Json> {
        match self {
            Json::Object(members) => member(members@, key),
            _ => None,
        }
    }

    /// The text of a text.
    pub open spec fn text(self) -> Option<Seq<char>> {
        match self {
            Json::Text(t) => Some(t@),
            _ => None,
        }
    }

    /// The elements of an array.
    pub open spec fn elements(self) -> Option<Seq<Json>> {
        match self {
            Json::Array(a) => Some(a@),
            _ => None,
        }
    }

    /// The value of an object's member.
    pub fn get(&self, key: &str) -> (r: Option<&Json>)
        ensures
            match r {
                Some(v) => self.field(key@) == Some(*v),
                None => self.field(key@) is None,
            },
    {
        match self {
            Json::Object(members) => {
                let mut i: usize = 0;
                assert(members@.skip(0) =~= members@);
                while i < members.len()
                    invariant
                        i <= members@.len(),
                        *self == Json::Object(*members),
                        member(members@, key@) == member(members@.skip(i as int), key@),
                    decreases members@.len() - i,
                {
                    if same(members[i].0.as_str(), key) {
                        return Some(&members[i].1);
                    }
                    assert(members@.skip(i as int).drop_first() =~= members@.skip(i + 1));
                    i = i + 1;
                }
                None
            },
            _ => None,
        }
    }

    /// The text of a text.
    pub fn as_str(&self) -> (r: Option<&str>)
        ensures
            match r {
                Some(t) => self.text() == Some(t@),
                None => self.text() is None,
            },
    {
        match self {
            Json::Text(t) => Some(t.as_str()),
            _ => None,
        }
    }

    /// The elements of an array.
    pub fn as_array(&self) -> (r: Option<&Vec<Json>>)
        ensures
            match r {
                Some(a) => self.elements() == Some(a@),
                None => self.elements() is None,
            },
    {
        match self {
            Json::Array(a) => Some(a),
            _ => None,
        }
    }

    /// The value of an unsigned integer.
    pub fn as_u64(&self) -> (r: Option<u64>)
        ensures
            r == (match *self {
                Json::Unsigned(n) => Some(n),
                _ => None,
            }),
    {
        match self {
            Json::Unsigned(n) => Some(*n),
            _ => None,
        }
    }
}

/// An object has a member exactly where one of its pairs has the key, and the
/// value is that of the first such pair.
pub proof fn members_go_by_their_key(members: Seq<(String, Json)>, key: Seq<char>)
    ensures
        match member(members, key) {
            Some(v) => exists|i: int|
                {
                    &&& 0 <= i < members.len()
                    &&& (#[trigger] members[i]).0@ == key
                    &&& members[i].1 == v
                    &&& forall|j: int| 0 <= j < i ==> (#[trigger] members[j]).0@ != key
                },
            None => forall|i: int| 0 <= i < members.len() ==> (#[trigger] members[i]).0@ != key,
        },
    decreases members.len(),
{
    if members.len() > 0 && members[0].0@ != key {
        let rest = members.drop_first();
        members_go_by_their_key(rest, key);
        match member(rest, key) {
            Some(v) => {
                let i = choose|i: int|
                    {
                        &&& 0 <= i < rest.len()
                        &&& (#[trigger] rest[i]).0@ == key
                        &&& rest[i].1 == v
                        &&& forall|j: int| 0 <= j < i ==> (#[trigger] rest[j]).0@ != key
                    };
                assert(members[i + 1] == rest[i]);
                assert forall|j: int| 0 <= j < i + 1 implies (#[trigger] members[j]).0@
                    != key by {
                    if j > 0 {
                        assert(rest[j - 1].0@ != key);
                    }
                }
            },
            None => {
                assert forall|i: int| 0 <= i < members.len() implies (#[trigger] members[i]).0@
                    != key by {
                    if i > 0 {
                        assert(rest[i - 1].0@ != key);
                    }
                }
            },
        }
    }
}

/// Only objects have members, only texts a text, and only arrays elements; each
/// gives out what it holds.
pub proof fn values_give_what_they_hold(value: Json, key: Seq<char>)
    ensures
        value.field(key) is Some ==> value is Object,
        value matches Json::Object(members) ==> value.field(key) == member(members@, key),
        value.text() is Some <==> value is Text,
        value matches Json::Text(t) ==> value.text() == Some(t@),
        value.elements() is Some <==> value is Array,
        value matches Json::Array(a) ==> value.elements() == Some(a@),
{
}

} // verus!
