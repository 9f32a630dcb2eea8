//! The settings documents the library interprets, as plain values.
//!
//! `settings.json`, the ACP `initialize` result and session rows are JSON;
//! `parse_json` reads text into this model of it. Object
//! entries keep document order, and a key occurs at most once per object (the
//! parser keeps the last value of a repeated key), so a lookup by key returns
//! the first — and only — entry carrying it.
use vstd::prelude::*;
use crate::text::str_eq;

verus! {

/// A JSON number: its literal text and, where it is a non-negative integer
/// that fits, its `u64` value.
pub struct JsonNumber {
    pub text: String,
    pub as_u64: Option<u64>,
}

/// A parsed JSON value.
pub enum Json {
    Null,
    Bool(bool),
    Number(JsonNumber),
    Str(String),
    Array(Vec<Json>),
    Object(Vec<(String, Json)>),
}

/// The value stored under `key` in an entry list: the first entry that
/// carries the key.
pub open spec fn entries_lookup(entries: Seq<(String, Json)>, key: Seq<char>) -> Option<Json>
    decreases entries.len(),
{
    if entries.len() == 0 {
        None
    } else if entries[0].0@ == key {
        Some(entries[0].1)
    } else {
        entries_lookup(entries.drop_first(), key)
    }
}

impl Json {
    /// `Value::get(key)`: the member of an object, `None` for anything else.
    pub open spec fn member(self, key: Seq<char>) -> Option<Json> {
        match self {
            Json::Object(m) => entries_lookup(m@, key),
            _ => None,
        }
    }

    /// `Value::as_str`.
    pub open spec fn str_view(self) -> Option<Seq<char>> {
        match self {
            Json::Str(s) => Some(s@),
            _ => None,
        }
    }

    /// `Value::as_array`.
    pub open spec fn items(self) -> Option<Seq<Json>> {
        match self {
            Json::Array(v) => Some(v@),
            _ => None,
        }
    }

    /// `Value::as_object`.
    pub open spec fn entries(self) -> Option<Seq<(String, Json)>> {
        match self {
            Json::Object(m) => Some(m@),
            _ => None,
        }
    }

    /// `Value::as_u64`.
    pub open spec fn u64_view(self) -> Option<u64> {
        match self {
            Json::Number(n) => n.as_u64,
            _ => None,
        }
    }

    /// The member stored under `key`, if this is an object that has one.
    pub fn get<'a>(&'a self, key: &str) -> (r: Option<&'a Json>)
        ensures
            match r {
                Some(v) => self.member(key@) == Some(*v),
                None => self.member(key@) is None,
            },
    {
        match self {
            Json::Object(m) => {
                let mut i: usize = 0;
                assert(m@.skip(0) =~= m@);
                while i < m.len()
                    invariant
                        i <= m.len(),
                        self.member(key@) == entries_lookup(m@, key@),
                        entries_lookup(m@, key@) == entries_lookup(m@.skip(i as int), key@),
                    decreases m.len() - i,
                {
                    proof {
                        lemma_lookup_step(m@, i as int, key@);
                    }
                    if str_eq(m[i].0.as_str(), key) {
                        return Some(&m[i].1);
                    }
                    i = i + 1;
                }
                None
            },
            _ => None,
        }
    }

    /// The string this value holds, if it is a string.
    pub fn as_str(&self) -> (r: Option<&str>)
        ensures
            match r {
                Some(s) => self.str_view() == Some(s@),
                None => self.str_view() is None,
            },
    {
        match self {
            Json::Str(s) => Some(s.as_str()),
            _ => None,
        }
    }

    /// The items of this value, if it is an array.
    pub fn as_array(&self) -> (r: Option<&Vec<Json>>)
        ensures
            match r {
                Some(v) => self.items() == Some(v@),
                None => self.items() is None,
            },
    {
        match self {
            Json::Array(v) => Some(v),
            _ => None,
        }
    }

    /// The entries of this value, if it is an object.
    pub fn as_object(&self) -> (r: Option<&Vec<(String, Json)>>)
        ensures
            match r {
                Some(m) => self.entries() == Some(m@),
                None => self.entries() is None,
            },
    {
        match self {
            Json::Object(m) => Some(m),
            _ => None,
        }
    }

    /// The value as a `u64`, if it is a non-negative integer that fits.
    pub fn as_u64(&self) -> (r: Option<u64>)
        ensures
            r == self.u64_view(),
    {
        match self {
            Json::Number(n) => n.as_u64,
            _ => None,
        }
    }
}

/// The string stored under `key` in `entry`.
pub open spec fn str_member(entry: Json, key: Seq<char>) -> Option<Seq<char>> {
    match entry.member(key) {
        Some(v) => v.str_view(),
        None => None,
    }
}

/// The string stored under `key` in `entry`, if any.
pub fn str_member_of<'a>(entry: &'a Json, key: &str) -> (r: Option<&'a str>)
    ensures
        match r {
            Some(s) => str_member(*entry, key@) == Some(s@),
            None => str_member(*entry, key@) is None,
        },
{
    match entry.get(key) {
        Some(v) => v.as_str(),
        None => None,
    }
}

/// Looking up past entry `i` changes nothing when entry `i` carries another key.
pub proof fn lemma_lookup_step(entries: Seq<(String, Json)>, i: int, key: Seq<char>)
    requires
        0 <= i < entries.len(),
    ensures
        entries.skip(i)[0] == entries[i],
        entries[i].0@ != key ==> entries_lookup(entries.skip(i), key) == entries_lookup(
            entries.skip(i + 1),
            key,
        ),
        entries[i].0@ == key ==> entries_lookup(entries.skip(i), key) == Some(entries[i].1),
{
    assert(entries.skip(i).drop_first() =~= entries.skip(i + 1));
}

#[verifier::external_type_specification]
#[verifier::external_body]
pub struct ExJsonValue(serde_json::Value);

/// The document `serde_json` reads from `text`; `None` when the text is no
/// JSON.
pub uninterp spec fn json_document(text: Seq<char>) -> Option<Json>;

/// One parsed value as the library's `Json`, variant for variant (numbers
/// keep their literal text and their `u64` value; objects keep their member
/// order). The conversion of `parse_json`'s result.
#[verifier::external_body]
pub(crate) fn json_from_value(v: &serde_json::Value) -> Json {
    match v {
        serde_json::Value::Null => Json::Null,
        serde_json::Value::Bool(b) => Json::Bool(*b),
        serde_json::Value::Number(n) => Json::Number(JsonNumber { text: n.to_string(), as_u64: n.as_u64() }),
        serde_json::Value::String(s) => Json::Str(s.clone()),
        serde_json::Value::Array(items) => Json::Array(items.iter().map(json_from_value).collect()),
        serde_json::Value::Object(map) => Json::Object(map.iter().map(|(k, v)| (k.clone(), json_from_value(v))).collect()),
    }
}

/// `serde_json::from_str::<Value>(text).ok()`, as the library's `Json`. The
/// contract names the result `json_document(text)`; which texts parse and
/// into what is not stated.
#[verifier::external_body]
pub fn parse_json(text: &str) -> (r: Option<Json>)
    ensures
        r == json_document(text@),
{
    serde_json::from_str::<serde_json::Value>(text).ok().map(|v| json_from_value(&v))
}

/// The document a file's text gives, `None` without a file.
pub open spec fn document_of(text: Option<Seq<char>>) -> Option<Json> {
    match text {
        Some(t) => json_document(t),
        None => None,
    }
}

/// A file's text (if any), parsed.
pub fn parse_file_text(text: Option<&str>) -> (r: Option<Json>)
    ensures
        r == document_of(match text {
            Some(t) => Some(t@),
            None => None,
        }),
{
    match text {
        Some(t) => parse_json(t),
        None => None,
    }
}

} // verus!
