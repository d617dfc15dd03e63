//! JSON values as the library reads them, parsed by `serde_json`.
use vstd::prelude::*;

verus! {

#[verifier::external_type_specification]
#[verifier::external_body]
pub struct ExJsonValue(serde_json::Value);

/// A JSON value. A number keeps only what the library reads of it: its value
/// when it is a non-negative integer that fits in `u64`.
#[derive(Debug)]
pub enum Json {
    Null,
    Bool(bool),
    Number(Option<u64>),
    Str(String),
    Array(Vec<Json>),
    Object(Vec<(String, Json)>),
}

/// What `serde_json::from_str` makes of a text, in the library's form; `None`
/// when the text is not valid JSON.
pub uninterp spec fn json_of(s: Seq<char>) -> Option<Json>;

/// Converts a parsed value one for one: each variant to its counterpart, a
/// number to `Number::as_u64`, members in the map's order.
#[verifier::external_body]
fn from_value(v: serde_json::Value) -> (r: Json) {
    match v {
        serde_json::Value::Null => Json::Null,
        serde_json::Value::Bool(b) => Json::Bool(b),
        serde_json::Value::Number(n) => Json::Number(n.as_u64()),
        serde_json::Value::String(s) => Json::Str(s),
        serde_json::Value::Array(a) => Json::Array(a.into_iter().map(from_value).collect()),
        serde_json::Value::Object(m) => Json::Object(m.into_iter().map(|(k, x)| (k, from_value(x))).collect()),
    }
}

/// Relies on `serde_json::from_str::<serde_json::Value>`: parses one JSON
/// document; `None` when the text is not valid JSON.
#[verifier::external_body]
pub fn parse_json(s: &str) -> (r: Option<Json>)
    ensures
        r == json_of(s@),
{
    serde_json::from_str::<serde_json::Value>(s).ok().map(from_value)
}

/// The first member of `entries` named `key`.
pub open spec fn member(entries: Seq<(String, Json)>, key: Seq<char>) -> Option<Json>
    decreases entries.len(),
{
    if entries.len() == 0 {
        None
    } else if entries[0].0@ == key {
        Some(entries[0].1)
    } else {
        member(entries.drop_first(), key)
    }
}

/// The member `key` of an object; `None` for anything else.
pub open spec fn get_spec(j: Json, key: Seq<char>) -> Option<Json> {
    match j {
        Json::Object(es) => member(es@, key),
        _ => None,
    }
}

/// The member `key` of an optional object.
pub open spec fn field(j: Option<Json>, key: Seq<char>) -> Option<Json> {
    match j {
        Some(v) => get_spec(v, key),
        None => None,
    }
}

pub open spec fn str_of(j: Option<Json>) -> Option<String> {
    match j {
        Some(Json::Str(s)) => Some(s),
        _ => None,
    }
}

pub open spec fn u64_of(j: Option<Json>) -> Option<u64> {
    match j {
        Some(Json::Number(n)) => n,
        _ => None,
    }
}

pub open spec fn array_of(j: Option<Json>) -> Option<Seq<Json>> {
    match j {
        Some(Json::Array(v)) => Some(v@),
        _ => None,
    }
}

fn member_exec<'a>(entries: &'a Vec<(String, Json)>, key: &str) -> (r: Option<&'a Json>)
    ensures
        match member(entries@, key@) {
            Some(x) => r is Some && *r.unwrap() == x,
            None => r is None,
        },
{
    let k = crate::text::chars_of(key);
    let mut i: usize = 0;
    assert(entries@.skip(0) =~= entries@);
    while i < entries.len()
        invariant
            i <= entries@.len(),
            k@ == key@,
            member(entries@, key@) == member(entries@.skip(i as int), key@),
        decreases entries@.len() - i,
    {
        assert(entries@.skip(i as int).drop_first() =~= entries@.skip(i + 1));
        if crate::text::equal_chars(&crate::text::chars_of(entries[i].0.as_str()), &k) {
            return Some(&entries[i].1);
        }
        i = i + 1;
    }
    None
}

impl Json {
    /// The member `key`, when this is an object that has one.
    pub fn get(&self, key: &str) -> (r: Option<&Json>)
        ensures
            match get_spec(*self, key@) {
                Some(x) => r is Some && *r.unwrap() == x,
                None => r is None,
            },
    {
        match self {
            Json::Object(es) => member_exec(es, key),
            _ => None,
        }
    }

    pub fn as_str(&self) -> (r: Option<&String>)
        ensures
            match str_of(Some(*self)) {
                Some(s) => r is Some && *r.unwrap() == s,
                None => r is None,
            },
    {
        match self {
            Json::Str(s) => Some(s),
            _ => None,
        }
    }

    pub fn as_u64(&self) -> (r: Option<u64>)
        ensures
            r == u64_of(Some(*self)),
    {
        match self {
            Json::Number(n) => *n,
            _ => None,
        }
    }

    pub fn as_array(&self) -> (r: Option<&Vec<Json>>)
        ensures
            match array_of(Some(*self)) {
                Some(v) => r is Some && r.unwrap()@ == v,
                None => r is None,
            },
    {
        match self {
            Json::Array(v) => Some(v),
            _ => None,
        }
    }
}

/// The text member `key` of an optional object.
pub fn field_str(v: Option<&Json>, key: &str) -> (r: Option<String>)
    ensures
        r == str_of(field(
            match v {
                Some(x) => Some(*x),
                None => None,
            },
            key@,
        )),
{
    match v {
        Some(j) => match j.get(key) {
            Some(f) => match f.as_str() {
                Some(s) => Some(s.clone()),
                None => None,
            },
            None => None,
        },
        None => None,
    }
}

/// The integer member `key` of an object, or zero.
pub fn field_u64(v: &Json, key: &str) -> (r: u64)
    ensures
        r == match u64_of(get_spec(*v, key@)) {
            Some(n) => n,
            None => 0,
        },
{
    match v.get(key) {
        Some(f) => match f.as_u64() {
            Some(n) => n,
            None => 0,
        },
        None => 0,
    }
}

} // verus!
