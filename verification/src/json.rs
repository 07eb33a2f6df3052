//! A JSON document as the venue feeds send it: the tree that `serde_json`
//! reads from the text, held in plain values so that the message logic
//! can be stated over it.
use vstd::prelude::*;

use crate::decimal::{chars_of, parse_u64_literal, u64_literal};

verus! {

#[verifier::external_type_specification]
#[verifier::external_body]
pub struct ExSerdeJsonValue(serde_json::Value);

/// A JSON value. A number keeps the text that `serde_json` prints for it
/// (an integer in decimal digits, a float in its shortest round-trip form);
/// an object keeps its members in the order `serde_json` holds them, each
/// key once.
#[derive(Debug)]
pub enum JsonValue {
    Null,
    Bool(bool),
    Number(String),
    String(String),
    Array(Vec<JsonValue>),
    Object(Vec<(String, JsonValue)>),
}

/// The document that `serde_json::from_str` reads from `raw`, or `None`
/// when it rejects the text.
pub uninterp spec fn json_document(raw: Seq<char>) -> Option<JsonValue>;

/// Calls `serde_json::from_str::<serde_json::Value>` and turns the tree it
/// returns into a [`JsonValue`], node for node. The contract names the
/// result; what serde_json accepts and how it reads numbers is not restated.
#[verifier::external_body]
fn parse_json_document(raw: &str) -> (r: Option<JsonValue>)
    ensures
        r == json_document(raw@),
{
    match serde_json::from_str::<serde_json::Value>(raw) {
        Ok(v) => Some(json_value_from_serde(v)),
        Err(_) => None,
    }
}

/// The node-for-node conversion of `serde_json::Value` that
/// [`parse_json_document`] applies to the tree it reads (a number becomes its
/// `Display` text). Only that wrapper calls it; its result is what the
/// wrapper's contract names.
#[verifier::external_body]
fn json_value_from_serde(v: serde_json::Value) -> JsonValue {
    match v {
        serde_json::Value::Null => JsonValue::Null,
        serde_json::Value::Bool(b) => JsonValue::Bool(b),
        serde_json::Value::Number(n) => JsonValue::Number(n.to_string()),
        serde_json::Value::String(s) => JsonValue::String(s),
        serde_json::Value::Array(items) => JsonValue::Array(
            items.into_iter().map(json_value_from_serde).collect(),
        ),
        serde_json::Value::Object(fields) => JsonValue::Object(
            fields.into_iter().map(|(k, x)| (k, json_value_from_serde(x))).collect(),
        ),
    }
}

/// The lower-case hexadecimal digit of a value below 16.
pub open spec fn hex_digit(v: int) -> char {
    if v < 10 {
        (('0' as int) + v) as char
    } else {
        (('a' as int) + v - 10) as char
    }
}

/// How `serde_json` writes one character inside a string literal: a quote
/// and a backslash are preceded by a backslash; backspace, tab, line feed,
/// form feed and carriage return are written `\b \t \n \f \r`; the other
/// characters below U+0020 as `\u00` and two lower-case hex digits; every
/// other character as itself.
pub open spec fn json_escape_char(c: char) -> Seq<char> {
    if c == '"' {
        seq!['\\', '"']
    } else if c == '\\' {
        seq!['\\', '\\']
    } else if c == '\u{8}' {
        seq!['\\', 'b']
    } else if c == '\t' {
        seq!['\\', 't']
    } else if c == '\n' {
        seq!['\\', 'n']
    } else if c == '\u{c}' {
        seq!['\\', 'f']
    } else if c == '\r' {
        seq!['\\', 'r']
    } else if (c as int) < 0x20 {
        seq!['\\', 'u', '0', '0', hex_digit((c as int) / 16), hex_digit((c as int) % 16)]
    } else {
        seq![c]
    }
}

/// The characters of a text, each written as [`json_escape_char`] writes it.
pub open spec fn json_escaped(s: Seq<char>) -> Seq<char>
    decreases s.len(),
{
    if s.len() == 0 {
        Seq::empty()
    } else {
        json_escaped(s.drop_last()) + json_escape_char(s.last())
    }
}

/// The JSON string literal that `serde_json::to_string` writes for a text:
/// the escaped text (see [`json_escaped`]) between double quotes.
pub open spec fn json_string_literal(s: Seq<char>) -> Seq<char> {
    seq!['"'] + json_escaped(s) + seq!['"']
}

/// Calls `serde_json::to_string` on a string slice: the text between
/// double quotes, escaped by serde_json's escape table (see
/// [`json_string_literal`]). Serializing a `str` into memory cannot fail;
/// the empty string that the error arm returns is never produced.
#[verifier::external_body]
pub(crate) fn json_quote(s: &str) -> (r: String)
    ensures
        r@ == json_string_literal(s@),
{
    match serde_json::to_string(s) {
        Ok(t) => t,
        Err(_) => String::new(),
    }
}

/// Reads a JSON document from text (see [`json_document`]).
pub fn parse_json(raw: &str) -> (r: Option<JsonValue>)
    ensures
        r == json_document(raw@),
{
    parse_json_document(raw)
}

/// The value of the first member named `key`.
pub open spec fn member_lookup(entries: Seq<(String, JsonValue)>, key: Seq<char>) -> Option<
    JsonValue,
>
    decreases entries.len(),
{
    if entries.len() == 0 {
        None
    } else if entries[0].0@ == key {
        Some(entries[0].1)
    } else {
        member_lookup(entries.drop_first(), key)
    }
}

/// The member `key` of an object; `None` for a missing member or a value
/// that is not an object (as `serde_json::Value::get` with a string key).
pub open spec fn json_get(v: JsonValue, key: Seq<char>) -> Option<JsonValue> {
    match v {
        JsonValue::Object(entries) => member_lookup(entries@, key),
        _ => None,
    }
}

/// The text of a JSON string (as `serde_json::Value::as_str`).
pub open spec fn json_str(v: Option<JsonValue>) -> Option<Seq<char>> {
    match v {
        Some(JsonValue::String(s)) => Some(s@),
        _ => None,
    }
}

/// The value of a JSON number that is a non-negative integer within `u64`
/// (as `serde_json::Value::as_u64`).
pub open spec fn json_u64(v: Option<JsonValue>) -> Option<u64> {
    match v {
        Some(JsonValue::Number(t)) => u64_literal(t@),
        _ => None,
    }
}

/// The first element of a JSON array.
pub open spec fn json_first(v: Option<JsonValue>) -> Option<JsonValue> {
    match v {
        Some(JsonValue::Array(items)) => if items@.len() > 0 {
            Some(items@[0])
        } else {
            None
        },
        _ => None,
    }
}

proof fn lemma_member_lookup_skip(entries: Seq<(String, JsonValue)>, key: Seq<char>, i: int)
    requires
        0 <= i <= entries.len(),
        forall|j: int| 0 <= j < i ==> entries[j].0@ != key,
    ensures
        member_lookup(entries, key) == member_lookup(entries.skip(i), key),
    decreases i,
{
    if i == 0 {
        assert(entries.skip(0) =~= entries);
    } else {
        let t = entries.drop_first();
        assert forall|j: int| 0 <= j < i - 1 implies t[j].0@ != key by {
            assert(t[j] == entries[j + 1]);
        }
        lemma_member_lookup_skip(t, key, i - 1);
        assert(t.skip(i - 1) =~= entries.skip(i));
    }
}

impl JsonValue {
    /// The member `key` of an object (see [`json_get`]).
    pub fn get(&self, key: &str) -> (r: Option<&JsonValue>)
        ensures
            match r {
                Some(x) => json_get(*self, key@) == Some(*x),
                None => json_get(*self, key@) is None,
            },
    {
        match self {
            JsonValue::Object(entries) => {
                let k = String::from_str(key);
                let mut i: usize = 0;
                while i < entries.len()
                    invariant
                        i <= entries.len(),
                        k@ == key@,
                        json_get(*self, key@) == member_lookup(entries@, key@),
                        forall|j: int| 0 <= j < i ==> entries@[j].0@ != key@,
                    decreases entries.len() - i,
                {
                    if entries[i].0 == k {
                        proof {
                            lemma_member_lookup_skip(entries@, key@, i as int);
                            assert(entries@.skip(i as int)[0] == entries@[i as int]);
                        }
                        return Some(&entries[i].1);
                    }
                    i = i + 1;
                }
                proof {
                    lemma_member_lookup_skip(entries@, key@, i as int);
                }
                None
            },
            _ => None,
        }
    }

    /// The text of a JSON string (see [`json_str`]).
    pub fn as_str(&self) -> (r: Option<&String>)
        ensures
            match r {
                Some(x) => json_str(Some(*self)) == Some(x@),
                None => json_str(Some(*self)) is None,
            },
    {
        match self {
            JsonValue::String(s) => Some(s),
            _ => None,
        }
    }

    /// The elements of a JSON array.
    pub fn as_array(&self) -> (r: Option<&Vec<JsonValue>>)
        ensures
            match r {
                Some(x) => *self == JsonValue::Array(*x),
                None => !(*self is Array),
            },
    {
        match self {
            JsonValue::Array(items) => Some(items),
            _ => None,
        }
    }

    /// A non-negative integer within `u64` (see [`json_u64`]).
    pub fn as_u64(&self) -> (r: Option<u64>)
        ensures
            r == json_u64(Some(*self)),
    {
        match self {
            JsonValue::Number(t) => {
                let cs = chars_of(t.as_str());
                parse_u64_literal(&cs)
            },
            _ => None,
        }
    }
}

} // verus!
