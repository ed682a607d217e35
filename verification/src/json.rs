//! JSON values.
use vstd::prelude::*;

use crate::text::str_eq;

verus! {

/// A JSON value. Whole numbers are kept as numbers, others by their text; an
/// object lists its members, each name once.
#[derive(Debug, PartialEq, Eq)]
pub enum Json {
    Null,
    Bool(bool),
    Int(i64),
    UInt(u64),
    Float(String),
    Text(String),
    Array(Vec<Json>),
    Object(Vec<(String, Json)>),
}

/// The first member of a list with a name.
pub open spec fn member_from(members: Seq<(String, Json)>, name: Seq<char>, i: int) -> Option<Json>
    decreases members.len() - i,
{
    if i >= members.len() {
        None
    } else if members[i].0@ == name {
        Some(members[i].1)
    } else {
        member_from(members, name, i + 1)
    }
}

/// The member of an object with a name; nothing for any other value.
pub open spec fn json_member(value: Json, name: Seq<char>) -> Option<Json> {
    match value {
        Json::Object(members) => member_from(members@, name, 0),
        _ => None,
    }
}

/// The text of a string value.
pub open spec fn json_text(value: Json) -> Option<Seq<char>> {
    match value {
        Json::Text(text) => Some(text@),
        _ => None,
    }
}

/// The number of a value that is a whole number from zero on.
pub open spec fn json_unsigned(value: Json) -> Option<u64> {
    match value {
        Json::Int(n) => if n >= 0 {
            Some(n as u64)
        } else {
            None
        },
        Json::UInt(n) => Some(n),
        _ => None,
    }
}

/// The number of a value that is a whole number of 64 signed bits.
pub open spec fn json_signed(value: Json) -> Option<i64> {
    match value {
        Json::Int(n) => Some(n),
        Json::UInt(n) => if n <= i64::MAX {
            Some(n as i64)
        } else {
            None
        },
        _ => None,
    }
}

/// Whether the member at a place is the first with a name.
pub open spec fn first_named(members: Seq<(String, Json)>, name: Seq<char>, at: int) -> bool {
    &&& 0 <= at < members.len()
    &&& members[at].0@ == name
    &&& forall|k: int| 0 <= k < at ==> (#[trigger] members[k]).0@ != name
}

/// Whether no member has a name.
pub open spec fn none_named(members: Seq<(String, Json)>, name: Seq<char>) -> bool {
    forall|k: int| 0 <= k < members.len() ==> (#[trigger] members[k]).0@ != name
}

/// The members of an object are found by their names: the first with a name is the one
/// that is found, and nothing is found under a name that no member has.
pub proof fn members_are_found_by_name(members: Vec<(String, Json)>, name: Seq<char>)
    ensures
        forall|at: int| #[trigger]
            first_named(members@, name, at) ==> json_member(Json::Object(members), name) == Some(
                members@[at].1,
            ),
        none_named(members@, name) <==> json_member(Json::Object(members), name) is None,
{
    assert forall|at: int| #[trigger] first_named(members@, name, at) implies json_member(
        Json::Object(members),
        name,
    ) == Some(members@[at].1) by {
        lemma_member_at(members@, name, at, 0);
    }
    lemma_member_missing(members@, name, 0);
}

proof fn lemma_member_at(members: Seq<(String, Json)>, name: Seq<char>, at: int, i: int)
    requires
        first_named(members, name, at),
        0 <= i <= at,
    ensures
        member_from(members, name, i) == Some(members[at].1),
    decreases at - i,
{
    if i < at {
        assert(members[i].0@ != name);
        lemma_member_at(members, name, at, i + 1);
    }
}

proof fn lemma_member_missing(members: Seq<(String, Json)>, name: Seq<char>, i: int)
    requires
        0 <= i,
    ensures
        (forall|k: int| i <= k < members.len() ==> (#[trigger] members[k]).0@ != name)
            <==> member_from(members, name, i) is None,
    decreases members.len() - i,
{
    if i < members.len() {
        assert(members[i] == members[i]);
        lemma_member_missing(members, name, i + 1);
    }
}

/// Taking a member out leaves the members with other names.
proof fn lemma_member_removed(members: Seq<(String, Json)>, at: int, name: Seq<char>, i: int)
    requires
        0 <= at < members.len(),
        members[at].0@ != name,
        0 <= i <= members.len(),
    ensures
        i <= at ==> member_from(members.remove(at), name, i) == member_from(members, name, i),
        i > at ==> member_from(members.remove(at), name, i - 1) == member_from(members, name, i),
    decreases members.len() - i,
{
    let rest = members.remove(at);
    if i < members.len() {
        lemma_member_removed(members, at, name, i + 1);
        if i < at {
            assert(rest[i] == members[i]);
        } else if i > at {
            assert(rest[i - 1] == members[i]);
        }
    }
}

impl Json {
    /// The member of an object with a name.
    pub fn get(&self, name: &str) -> (member: Option<&Json>)
        ensures
            match member {
                Some(m) => json_member(*self, name@) == Some(*m),
                None => json_member(*self, name@) is None,
            },
    {
        match self {
            Json::Object(members) => {
                let mut i: usize = 0;
                while i < members.len()
                    invariant
                        *self == Json::Object(*members),
                        i <= members@.len(),
                        member_from(members@, name@, 0) == member_from(members@, name@, i as int),
                    decreases members@.len() - i,
                {
                    if str_eq(members[i].0.as_str(), name) {
                        return Some(&members[i].1);
                    }
                    i += 1;
                }
                None
            },
            _ => None,
        }
    }

    /// Takes the member with a name out of an object. The other members stay.
    pub fn take(&mut self, name: &str) -> (member: Option<Json>)
        ensures
            member == json_member(*old(self), name@),
            forall|other: Seq<char>|
                other != name@ ==> #[trigger] json_member(*final(self), other) == json_member(
                    *old(self),
                    other,
                ),
    {
        match self {
            Json::Object(members) => {
                let ghost all = members@;
                let mut i: usize = 0;
                while i < members.len() && !str_eq(members[i].0.as_str(), name)
                    invariant
                        members@ == all,
                        i <= all.len(),
                        forall|j: int| 0 <= j < i ==> (#[trigger] all[j]).0@ != name@,
                        member_from(all, name@, 0) == member_from(all, name@, i as int),
                    decreases all.len() - i,
                {
                    i += 1;
                }
                if i < members.len() {
                    let (_, value) = members.remove(i);
                    proof {
                        assert forall|other: Seq<char>| other != name@ implies #[trigger] member_from(
                            members@,
                            other,
                            0,
                        ) == member_from(all, other, 0) by {
                            lemma_member_removed(all, i as int, other, 0);
                        }
                    }
                    Some(value)
                } else {
                    None
                }
            },
            _ => None,
        }
    }

    /// The text of a string value.
    pub fn as_str(&self) -> (text: Option<&str>)
        ensures
            match text {
                Some(t) => json_text(*self) == Some(t@),
                None => json_text(*self) is None,
            },
    {
        match self {
            Json::Text(text) => Some(text.as_str()),
            _ => None,
        }
    }

    /// The number of a value that is a whole number from zero on.
    pub fn as_u64(&self) -> (n: Option<u64>)
        ensures
            n == json_unsigned(*self),
    {
        match self {
            Json::Int(n) => if *n >= 0 {
                Some(*n as u64)
            } else {
                None
            },
            Json::UInt(n) => Some(*n),
            _ => None,
        }
    }

    /// The number of a value that is a whole number of 64 signed bits.
    pub fn as_i64(&self) -> (n: Option<i64>)
        ensures
            n == json_signed(*self),
    {
        match self {
            Json::Int(n) => Some(*n),
            Json::UInt(n) => if *n <= 0x7fff_ffff_ffff_ffff {
                Some(*n as i64)
            } else {
                None
            },
            _ => None,
        }
    }
}

/// A value is read as an unsigned number if and only if it is a whole number that is not
/// negative, and then as that number.
pub proof fn unsigned_numbers_are_read_as_they_are(value: Json)
    ensures
        json_unsigned(value) is Some <==> (value is UInt || (value matches Json::Int(n) && n >= 0)),
        value matches Json::UInt(n) ==> json_unsigned(value) == Some(n),
        value matches Json::Int(n) ==> (n >= 0 ==> json_unsigned(value)->0 == n),
{
}

} // verus!
