//! A JSON value as the library reads it, and the JSON texts it parses:
//! tool arguments and the cron job file. `serde_json` parses; the library
//! holds what its logic inspects.
use vstd::prelude::*;
use crate::text::{
    all_digits, dec, dec_chars, dec_value, from_chars, parse_uint, push_char, push_chars, str_eq, to_chars,
};

verus! {

#[verifier::external_type_specification]
#[verifier::external_body]
pub struct ExSerdeJsonValue(serde_json::Value);

/// A JSON value.
#[derive(Debug)]
pub enum JsonValue {
    Null,
    Bool(bool),
    /// A number that fits in `i64`.
    Int(i64),
    /// Any other number, as its JSON text.
    OtherNumber(String),
    Str(String),
    Array(Vec<JsonValue>),
    /// An object's members in document order; keys are distinct.
    Object(Vec<(String, JsonValue)>),
}

/// The value of the first member named `key`.
pub open spec fn obj_get(members: Seq<(String, JsonValue)>, key: Seq<char>) -> Option<JsonValue>
    decreases members.len(),
{
    if members.len() == 0 {
        None
    } else if members[0].0@ == key {
        Some(members[0].1)
    } else {
        obj_get(members.skip(1), key)
    }
}

/// The member of `v` named `key` when `v` is an object.
pub open spec fn json_get(v: JsonValue, key: Seq<char>) -> Option<JsonValue> {
    match v {
        JsonValue::Object(m) => obj_get(m@, key),
        _ => None,
    }
}

/// Follows `parts` through nested objects.
pub open spec fn json_path(v: JsonValue, parts: Seq<Seq<char>>) -> Option<JsonValue>
    decreases parts.len(),
{
    if parts.len() == 0 {
        Some(v)
    } else {
        match json_get(v, parts[0]) {
            Some(c) => json_path(c, parts.skip(1)),
            None => None,
        }
    }
}

/// The value of a non-negative integer: an `Int` at least zero, or any
/// other number whose text is decimal digits alone, with a value that fits
/// in `u64`.
pub open spec fn json_u64(v: JsonValue) -> Option<u64> {
    match v {
        JsonValue::Int(n) => if n >= 0 {
            Some(n as u64)
        } else {
            None
        },
        JsonValue::OtherNumber(t) => if t@.len() > 0 && all_digits(t@) && dec_value(t@) <= u64::MAX {
            Some(dec_value(t@) as u64)
        } else {
            None
        },
        _ => None,
    }
}

/// Decimal text of a signed integer (`{}` formatting).
pub open spec fn dec_int(n: int) -> Seq<char> {
    if n < 0 {
        seq!['-'] + dec((-n) as nat)
    } else {
        dec(n as nat)
    }
}

/// The text of a string, an integer or a boolean value; empty for the rest.
pub open spec fn scalar_text(v: JsonValue) -> Seq<char> {
    match v {
        JsonValue::Str(s) => s@,
        JsonValue::Int(n) => dec_int(n as int),
        JsonValue::Bool(b) => if b {
            "true"@
        } else {
            "false"@
        },
        _ => Seq::empty(),
    }
}

/// Decimal text of an `i64`.
pub fn i64_to_string(n: i64) -> (r: String)
    ensures
        r@ == dec_int(n as int),
{
    if n < 0 {
        let m: u64 = (0i128 - n as i128) as u64;
        let mut out = String::new();
        push_char(&mut out, '-');
        let d = dec_chars(m);
        push_chars(&mut out, d.as_slice());
        out
    } else {
        let d = dec_chars(n as u64);
        from_chars(d.as_slice())
    }
}

/// The member of an object's member list named `key`.
pub fn object_get<'a>(members: &'a Vec<(String, JsonValue)>, key: &str) -> (r: Option<&'a JsonValue>)
    ensures
        match r {
            Some(v) => obj_get(members@, key@) == Some(*v),
            None => obj_get(members@, key@) is None,
        },
{
    let mut i: usize = 0;
    assert(members@.skip(0) == members@);
    while i < members.len()
        invariant
            i <= members.len(),
            obj_get(members@, key@) == obj_get(members@.skip(i as int), key@),
        decreases members.len() - i,
    {
        assert(members@.skip(i as int)[0] == members@[i as int]);
        assert(members@.skip(i as int).skip(1) == members@.skip(i + 1));
        if str_eq(members[i].0.as_str(), key) {
            return Some(&members[i].1);
        }
        i += 1;
    }
    None
}

impl JsonValue {
    /// The member named `key` when this is an object.
    pub fn get(&self, key: &str) -> (r: Option<&JsonValue>)
        ensures
            match r {
                Some(v) => json_get(*self, key@) == Some(*v),
                None => json_get(*self, key@) is None,
            },
    {
        match self {
            JsonValue::Object(m) => object_get(m, key),
            _ => None,
        }
    }

    /// The text of a string value.
    pub fn as_str(&self) -> (r: Option<&str>)
        ensures
            match *self {
                JsonValue::Str(s) => r is Some && r->0@ == s@,
                _ => r is None,
            },
    {
        match self {
            JsonValue::Str(s) => Some(s.as_str()),
            _ => None,
        }
    }

    /// The value of an integer that fits in `i64`.
    pub fn as_i64(&self) -> (r: Option<i64>)
        ensures
            match *self {
                JsonValue::Int(n) => r == Some(n),
                _ => r is None,
            },
    {
        match self {
            JsonValue::Int(n) => Some(*n),
            _ => None,
        }
    }

    /// The value of a non-negative integer: an `Int` at least zero, or a
    /// larger number written as plain decimal digits that fits in `u64`.
    pub fn as_u64(&self) -> (r: Option<u64>)
        ensures
            r == json_u64(*self),
    {
        match self {
            JsonValue::Int(n) => if *n >= 0 {
                Some(*n as u64)
            } else {
                None
            },
            JsonValue::OtherNumber(t) => {
                let s = to_chars(t.as_str());
                if s.len() > 0 && s[0] != '+' {
                    parse_uint(s.as_slice(), u64::MAX)
                } else {
                    None
                }
            },
            _ => None,
        }
    }

    /// The value of a boolean.
    pub fn as_bool(&self) -> (r: Option<bool>)
        ensures
            match *self {
                JsonValue::Bool(b) => r == Some(b),
                _ => r is None,
            },
    {
        match self {
            JsonValue::Bool(b) => Some(*b),
            _ => None,
        }
    }

    /// The text of a string, integer or boolean value; empty otherwise.
    pub fn scalar_string(&self) -> (r: String)
        ensures
            r@ == scalar_text(*self),
    {
        match self {
            JsonValue::Str(s) => s.clone(),
            JsonValue::Int(n) => i64_to_string(*n),
            JsonValue::Bool(b) => if *b {
                "true".to_string()
            } else {
                "false".to_string()
            },
            _ => String::new(),
        }
    }
}

/// Parsed tool arguments as values: the members of the JSON object, or
/// the parser's message.
pub open spec fn args_view(a: crate::module::ToolArgs) -> Result<Seq<(String, JsonValue)>, Seq<char>> {
    match a {
        Ok(m) => Ok(m@),
        Err(e) => Err(e@),
    }
}

/// The library's value for a parsed `serde_json` value: integers that fit
/// in `i64` as `Int`, other numbers by their text, objects' members in the
/// order in which `serde_json`'s map holds them.
#[verifier::external_body]
fn from_serde(v: &serde_json::Value) -> JsonValue {
    match v {
        serde_json::Value::Null => JsonValue::Null,
        serde_json::Value::Bool(b) => JsonValue::Bool(*b),
        serde_json::Value::Number(n) => match n.as_i64() {
            Some(i) => JsonValue::Int(i),
            None => JsonValue::OtherNumber(n.to_string()),
        },
        serde_json::Value::String(t) => JsonValue::Str(t.clone()),
        serde_json::Value::Array(a) => JsonValue::Array(a.iter().map(from_serde).collect()),
        serde_json::Value::Object(m) => JsonValue::Object(m.iter().map(|(k, x)| (k.clone(), from_serde(x))).collect()),
    }
}

/// What `serde_json::from_str` reads from `text` as a JSON object whose
/// values are any JSON values: its members, or the parser's message.
pub uninterp spec fn parsed_tool_args(text: Seq<char>) -> Result<Seq<(String, JsonValue)>, Seq<char>>;

/// What `serde_json::from_str` reads from `text` as a JSON object whose
/// values are all strings: its members, or the parser's message.
pub uninterp spec fn parsed_string_args(text: Seq<char>) -> Result<Seq<(String, JsonValue)>, Seq<char>>;

/// What `serde_json::from_str` reads from `text` as a JSON array: its
/// items, or nothing where the text is not one.
pub uninterp spec fn parsed_json_array(text: Seq<char>) -> Option<Seq<JsonValue>>;

/// What `serde_json::from_str` reads from `text` as any JSON value, or
/// nothing where the text is not JSON.
pub uninterp spec fn parsed_json(text: Seq<char>) -> Option<JsonValue>;

/// Parses JSON text with `serde_json::from_str` into a `serde_json::Value`;
/// the contract claims only that the result is what that call gives for
/// `text`, converted.
#[verifier::external_body]
pub(crate) fn parse_json(text: &str) -> (r: Option<JsonValue>)
    ensures
        r == parsed_json(text@),
{
    match serde_json::from_str::<serde_json::Value>(text) {
        Ok(v) => Some(from_serde(&v)),
        Err(_) => None,
    }
}

/// Parses tool arguments with `serde_json::from_str` into a
/// `serde_json::Map` of values; the contract claims only that the result is
/// what that call gives for `text`, converted value by value.
#[verifier::external_body]
pub(crate) fn parse_tool_args(text: &str) -> (r: crate::module::ToolArgs)
    ensures
        args_view(r) == parsed_tool_args(text@),
{
    match serde_json::from_str::<serde_json::Map<String, serde_json::Value>>(text) {
        Ok(m) => Ok(m.iter().map(|(k, x)| (k.clone(), from_serde(x))).collect()),
        Err(e) => Err(e.to_string()),
    }
}

/// Parses tool arguments with `serde_json::from_str` into a `BTreeMap` of
/// strings; the contract claims only that the result is what that call
/// gives for `text`, each value as a `Str`.
#[verifier::external_body]
pub(crate) fn parse_string_args(text: &str) -> (r: crate::module::ToolArgs)
    ensures
        args_view(r) == parsed_string_args(text@),
{
    match serde_json::from_str::<std::collections::BTreeMap<String, String>>(text) {
        Ok(m) => Ok(m.into_iter().map(|(k, x)| (k, JsonValue::Str(x))).collect()),
        Err(e) => Err(e.to_string()),
    }
}

/// Parses a JSON array with `serde_json::from_str` into a `Vec` of values;
/// the contract claims only that the result is what that call gives for
/// `text`, converted item by item.
#[verifier::external_body]
pub(crate) fn parse_json_array(text: &str) -> (r: Option<Vec<JsonValue>>)
    ensures
        match r {
            Some(v) => parsed_json_array(text@) == Some(v@),
            None => parsed_json_array(text@) is None,
        },
{
    match serde_json::from_str::<Vec<serde_json::Value>>(text) {
        Ok(v) => Some(v.iter().map(from_serde).collect()),
        Err(_) => None,
    }
}

} // verus!
