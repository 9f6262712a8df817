//! A JSON document as a tree of plain values.

use vstd::prelude::*;
use crate::error::AppError;

verus! {

/// A JSON value. Numbers keep the text they are written with; an object keeps
/// its members in the order the decoder lists them.
#[derive(Debug)]
pub enum Json {
    Null,
    Bool(bool),
    Number(String),
    Str(String),
    Array(Vec<Json>),
    Object(Vec<(String, Json)>),
}

#[verifier::external_type_specification]
#[verifier::external_body]
pub struct ExJsonValue(serde_json::Value);

/// The tree that the JSON text `text` decodes to, if it is well-formed JSON.
pub uninterp spec fn json_decoding(text: Seq<char>) -> Option<Json>;

/// Relies on `serde_json::Value`'s variants: converts one for one, numbers by
/// their `Display` text and objects in the map's own order.
#[verifier::external_body]
fn tree_of_value(v: serde_json::Value) -> Json {
    match v {
        serde_json::Value::Null => Json::Null,
        serde_json::Value::Bool(b) => Json::Bool(b),
        serde_json::Value::Number(n) => Json::Number(n.to_string()),
        serde_json::Value::String(s) => Json::Str(s),
        serde_json::Value::Array(a) => Json::Array(a.into_iter().map(tree_of_value).collect()),
        serde_json::Value::Object(m) => Json::Object(
            m.into_iter().map(|(k, x)| (k, tree_of_value(x))).collect(),
        ),
    }
}

/// Relies on `serde_json::from_str` into a `serde_json::Value`: it fails on text
/// that is not JSON, and its result depends on the text alone.
#[verifier::external_body]
fn decode_json(text: &str) -> (r: Option<Json>)
    ensures
        r == json_decoding(text@),
{
    serde_json::from_str::<serde_json::Value>(text).ok().map(tree_of_value)
}

impl Json {
    /// Decodes the JSON text `text`; text that is not JSON fails with
    /// `SerdeFailedParse`.
    pub fn parse(text: &str) -> (r: Result<Json, AppError>)
        ensures
            match json_decoding(text@) {
                Some(j) => r == Ok::<Json, AppError>(j),
                None => r == Err::<Json, AppError>(AppError::SerdeFailedParse),
            },
    {
        match decode_json(text) {
            Some(j) => Ok(j),
            None => Err(AppError::SerdeFailedParse),
        }
    }
}

/// The first member of `entries` named `key`.
#[verifier::opaque]
pub open spec fn member_index(entries: Seq<(String, Json)>, key: Seq<char>) -> Option<int> {
    if exists|i: int| 0 <= i < entries.len() && (#[trigger] entries[i]).0@ == key {
        let i = choose|i: int|
            0 <= i < entries.len() && (#[trigger] entries[i]).0@ == key && forall|k: int|
                0 <= k < i ==> (#[trigger] entries[k]).0@ != key;
        Some(i)
    } else {
        None
    }
}

/// The value of member `key` of `j`, when `j` is an object that has one.
pub open spec fn member(j: Json, key: Seq<char>) -> Option<Json> {
    match j {
        Json::Object(es) => match member_index(es@, key) {
            Some(i) => Some(es@[i].1),
            None => None,
        },
        _ => None,
    }
}

proof fn lemma_first_match(entries: Seq<(String, Json)>, key: Seq<char>, i: int)
    requires
        0 <= i < entries.len(),
        entries[i].0@ == key,
        forall|k: int| 0 <= k < i ==> (#[trigger] entries[k]).0@ != key,
    ensures
        member_index(entries, key) == Some(i),
{
    reveal(member_index);
    let j = choose|j: int|
        0 <= j < entries.len() && (#[trigger] entries[j]).0@ == key && forall|k: int|
            0 <= k < j ==> (#[trigger] entries[k]).0@ != key;
    assert(j == i) by {
        if j < i {
            assert(entries[j].0@ != key);
        } else if j > i {
            assert(entries[i].0@ != key);
        }
    }
}

impl Json {
    /// Looks up member `key` of this value, when it is an object.
    pub fn get(&self, key: &str) -> (r: Option<&Json>)
        ensures
            r matches Some(v) ==> member(*self, key@) == Some(*v),
            r is None ==> member(*self, key@) is None,
    {
        match self {
            Json::Object(es) => {
                let wanted = String::from_str(key);
                let mut i: usize = 0;
                while i < es.len()
                    invariant
                        i <= es@.len(),
                        wanted@ == key@,
                        *self == Json::Object(*es),
                        forall|k: int| 0 <= k < i ==> (#[trigger] es@[k]).0@ != key@,
                    decreases es.len() - i,
                {
                    if es[i].0 == wanted {
                        proof {
                            assert(es@[i as int].0@ == key@);
                            lemma_first_match(es@, key@, i as int);
                        }
                        return Some(&es[i].1);
                    }
                    i = i + 1;
                }
                proof {
                    reveal(member_index);
                }
                None
            },
            _ => None,
        }
    }
}

} // verus!
