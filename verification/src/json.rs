//! The structured records that the engine is handed: a tree of JSON values.

use vstd::prelude::*;
use crate::text::same_text;

verus! {

/// One JSON value.
#[derive(Debug, PartialEq, Eq)]
pub enum Json {
    /// The word `null`.
    Null,
    /// The word `true` or the word `false`.
    Bool(bool),
    /// An integer that is not below zero.
    Unsigned(u64),
    /// An integer below zero. Nothing takes a value of this kind for an
    /// unsigned integer, whatever it holds.
    Signed(i64),
    /// A number that is no integer of 64 bits, held by its compact text.
    Real(String),
    /// A string.
    Text(String),
    /// An array.
    Array(Vec<Json>),
    /// An object: its members in the order in which they are written.
    Object(Vec<Member>),
}

/// A key of an object together with its value.
#[derive(Debug, PartialEq, Eq)]
pub struct Member {
    pub key: String,
    pub value: Json,
}

/// The position of the first of `members` whose key is `key`, counted from
/// `from`, or the length of `members` where there is none.
pub open spec fn first_at(members: Seq<Member>, key: Seq<char>, from: int) -> int
    decreases members.len() - from,
{
    if from < 0 || from >= members.len() {
        members.len() as int
    } else if members[from].key@ == key {
        from
    } else {
        first_at(members, key, from + 1)
    }
}

/// The value that an object holds under `key`: that of the first member with
/// this key. Anything but an object holds nothing.
pub open spec fn field(v: Json, key: Seq<char>) -> Option<Json> {
    match v {
        Json::Object(members) => {
            let at = first_at(members@, key, 0);
            if at < members@.len() {
                Some(members@[at].value)
            } else {
                None
            }
        },
        _ => None,
    }
}

impl Json {
    /// Looks `key` up in an object.
    pub fn get(&self, key: &str) -> (found: Option<&Json>)
        ensures
            match found {
                Some(value) => field(*self, key@) == Some(*value),
                None => field(*self, key@) is None,
            },
    {
        match self {
            Json::Object(members) => {
                let mut i: usize = 0;
                while i < members.len()
                    invariant
                        i <= members.len(),
                        *self == Json::Object(*members),
                        first_at(members@, key@, 0) == first_at(members@, key@, i as int),
                    decreases members.len() - i,
                {
                    if same_text(members[i].key.as_str(), key) {
                        return Some(&members[i].value);
                    }
                    i += 1;
                }
                None
            },
            _ => None,
        }
    }
}

} // verus!
