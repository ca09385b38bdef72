//! A JSON document as the library reads it.
//!
//! Replies from the model and the Codex event stream arrive as JSON; the
//! caller parses the text into this type and the library reads it. Numbers
//! are kept only as far as the library reads them: as a `u64` when the value
//! is a non-negative integer that fits one.
use crate::text::str_eq;
use vstd::prelude::*;
use vstd::string::*;

verus! {

/// A JSON value.
#[derive(Debug)]
pub enum Json {
    /// `null`.
    Null,
    /// `true` or `false`.
    Bool(bool),
    /// A number, with its value when it is a non-negative integer that fits a
    /// `u64`.
    Number(Option<u64>),
    /// A string.
    Str(String),
    /// An array.
    Array(Vec<Json>),
    /// An object, its members in document order, keys distinct.
    Object(Vec<(String, Json)>),
}

/// The value of the first member of `members` named `key`.
pub open spec fn member(members: Seq<(String, Json)>, key: Seq<char>) -> Option<Json>
    decreases members.len(),
{
    if members.len() == 0 {
        None
    } else if members[0].0@ == key {
        Some(members[0].1)
    } else {
        member(members.drop_first(), key)
    }
}

/// The member named `key` of an object; `None` for anything else.
pub open spec fn get(v: Json, key: Seq<char>) -> Option<Json> {
    match v {
        Json::Object(m) => member(m@, key),
        _ => None,
    }
}

/// The text of a string value.
pub open spec fn as_text(v: Option<Json>) -> Option<Seq<char>> {
    match v {
        Some(Json::Str(s)) => Some(s@),
        _ => None,
    }
}

/// The value of a non-negative integer.
pub open spec fn as_u64(v: Option<Json>) -> Option<u64> {
    match v {
        Some(Json::Number(n)) => n,
        _ => None,
    }
}

/// The value of a boolean.
pub open spec fn as_bool(v: Option<Json>) -> Option<bool> {
    match v {
        Some(Json::Bool(b)) => Some(b),
        _ => None,
    }
}

/// The value an optional reference points to.
pub open spec fn deref_opt(v: Option<&Json>) -> Option<Json> {
    match v {
        Some(x) => Some(*x),
        None => None,
    }
}

/// The member named `key` of `v`, when `v` is an object that has one.
pub fn json_get<'a>(v: &'a Json, key: &str) -> (r: Option<&'a Json>)
    ensures
        match r {
            Some(x) => get(*v, key@) == Some(*x),
            None => get(*v, key@) is None,
        },
{
    match v {
        Json::Object(m) => {
            let mut i: usize = 0;
            assert(m@.subrange(0, m@.len() as int) =~= m@);
            while i < m.len()
                invariant
                    i <= m.len(),
                    get(*v, key@) == member(m@, key@),
                    member(m@, key@) == member(m@.subrange(i as int, m@.len() as int), key@),
                decreases m.len() - i,
            {
                let ghost rest = m@.subrange(i as int, m@.len() as int);
                assert(rest[0] == m@[i as int]);
                if str_eq(m[i].0.as_str(), key) {
                    assert(member(rest, key@) == Some(m@[i as int].1));
                    return Some(&m[i].1);
                }
                assert(rest.drop_first() =~= m@.subrange((i + 1) as int, m@.len() as int));
                i = i + 1;
            }
            None
        },
        _ => None,
    }
}

/// The text of `v`, when it is a string.
pub fn json_str(v: Option<&Json>) -> (r: Option<&str>)
    ensures
        match r {
            Some(s) => as_text(deref_opt(v)) == Some(s@),
            None => as_text(deref_opt(v)) is None,
        },
{
    match v {
        Some(Json::Str(s)) => Some(s.as_str()),
        _ => None,
    }
}

/// The value of `v`, when it is a non-negative integer.
pub fn json_u64(v: Option<&Json>) -> (r: Option<u64>)
    ensures
        r == as_u64(deref_opt(v)),
{
    match v {
        Some(Json::Number(n)) => *n,
        _ => None,
    }
}

/// The value of `v`, when it is a boolean.
pub fn json_bool(v: Option<&Json>) -> (r: Option<bool>)
    ensures
        r == as_bool(deref_opt(v)),
{
    match v {
        Some(Json::Bool(b)) => Some(*b),
        _ => None,
    }
}

} // verus!
