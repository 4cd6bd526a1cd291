//! The dynamic value held by store records and carried by request bodies.

use vstd::prelude::*;

use crate::error::{Error, ErrorKind};
use crate::text::{decimal, decimal_string};

verus! {

/// A dynamic value. A float is held as its shortest decimal rendering, which
/// reads back as the same number. An object (a map from unique string keys
/// to values) and an array are held as their canonical JSON text: compact,
/// with object keys in sorted order, as `serde_json::to_string` writes a
/// JSON value. Loose and structural equality of such values compare that
/// text, so whoever builds one must write it in that form.
#[derive(Clone, Debug, PartialEq)]
pub enum Value {
    Null,
    Bool(bool),
    Float(String),
    Integer(i128),
    Unsigned(u128),
    String(String),
    Object(String),
    Array(String),
}

/// The decimal form of a signed integer.
pub open spec fn signed_decimal(n: int) -> Seq<char> {
    if n < 0 {
        seq!['-'] + decimal((-n) as nat)
    } else {
        decimal(n as nat)
    }
}

/// `n` modulo 2^64.
pub open spec fn low64(n: int) -> int {
    n % 0x1_0000_0000_0000_0000
}

/// A 64-bit pattern read as a two's complement number.
pub open spec fn signed64(m: int) -> int {
    if m >= 0x8000_0000_0000_0000 {
        m - 0x1_0000_0000_0000_0000
    } else {
        m
    }
}

/// The textual rendering of a value.
pub open spec fn loose_text(v: Value) -> Seq<char> {
    match v {
        Value::Null => seq!['n', 'u', 'l', 'l'],
        Value::Bool(b) => if b {
            seq!['t', 'r', 'u', 'e']
        } else {
            seq!['f', 'a', 'l', 's', 'e']
        },
        Value::Float(t) => t@,
        Value::Integer(n) => signed_decimal(n as int),
        Value::Unsigned(n) => decimal(n as nat),
        Value::String(s) => s@,
        Value::Object(t) => t@,
        Value::Array(t) => t@,
    }
}

/// The JSON string literal for the characters `s`: quoted, with the
/// characters JSON requires escaped, as serde_json writes it.
pub uninterp spec fn json_quoted(s: Seq<char>) -> Seq<char>;

/// Relies on `serde_json::to_string` on a `str`: the JSON string literal
/// for it. Writing a `str` cannot fail, as serde_json writes it into memory.
#[verifier::external_body]
fn quote_json(s: &str) -> (r: String)
    ensures
        r@ == json_quoted(s@),
{
    serde_json::to_string(s).unwrap_or_default()
}

/// The JSON text of a value: a string is quoted and escaped; every other
/// kind already renders as JSON.
pub open spec fn json_text(v: Value) -> Seq<char> {
    match v {
        Value::String(s) => json_quoted(s@),
        _ => loose_text(v),
    }
}

/// Loose equality: the two values render as the same text.
pub open spec fn loose_eq(a: Value, b: Value) -> bool {
    loose_text(a) == loose_text(b)
}

/// Structural equality: the same kind and the same content.
pub open spec fn same_value(a: Value, b: Value) -> bool {
    match (a, b) {
        (Value::Null, Value::Null) => true,
        (Value::Bool(x), Value::Bool(y)) => x == y,
        (Value::Float(x), Value::Float(y)) => x@ == y@,
        (Value::Integer(x), Value::Integer(y)) => x == y,
        (Value::Unsigned(x), Value::Unsigned(y)) => x == y,
        (Value::String(x), Value::String(y)) => x@ == y@,
        (Value::Object(x), Value::Object(y)) => x@ == y@,
        (Value::Array(x), Value::Array(y)) => x@ == y@,
        _ => false,
    }
}

impl Default for Value {
    fn default() -> (r: Self)
        ensures
            r == Value::Null,
    {
        Value::Null
    }
}

impl Value {
    /// A JSON number: unsigned when it fits 64 unsigned bits, else signed when
    /// it fits 64 signed bits, else a float of rendering `text`.
    pub fn from_json_number(as_u64: Option<u64>, as_i64: Option<i64>, text: String) -> (r: Value)
        ensures
            r == match (as_u64, as_i64) {
                (Some(u), _) => Value::Unsigned(u as u128),
                (None, Some(i)) => Value::Integer(i as i128),
                (None, None) => Value::Float(text),
            },
    {
        match (as_u64, as_i64) {
            (Some(u), _) => Value::Unsigned(u as u128),
            (None, Some(i)) => Value::Integer(i as i128),
            (None, None) => Value::Float(text),
        }
    }

    /// The low 64 bits of an integer value, as formats without 128-bit
    /// integers hold it.
    pub fn low_u64(&self) -> (r: Option<u64>)
        ensures
            r == match *self {
                Value::Integer(n) => Some(low64(n as int) as u64),
                Value::Unsigned(n) => Some(low64(n as int) as u64),
                _ => None::<u64>,
            },
    {
        match self {
            Value::Integer(n) => {
                let m = (*n % 0x1_0000_0000_0000_0000i128 + 0x1_0000_0000_0000_0000i128) % 0x1_0000_0000_0000_0000i128;
                Some(m as u64)
            },
            Value::Unsigned(n) => Some((*n % 0x1_0000_0000_0000_0000u128) as u64),
            _ => None,
        }
    }

    /// The low 64 bits of an integer value read as a signed number.
    pub fn low_i64(&self) -> (r: Option<i64>)
        ensures
            r == match *self {
                Value::Integer(n) => Some(signed64(low64(n as int)) as i64),
                Value::Unsigned(n) => Some(signed64(low64(n as int)) as i64),
                _ => None::<i64>,
            },
    {
        match self.low_u64() {
            Some(m) => {
                if m >= 0x8000_0000_0000_0000u64 {
                    Some((m - 0x8000_0000_0000_0000u64) as i64 - 0x7fff_ffff_ffff_ffffi64 - 1)
                } else {
                    Some(m as i64)
                }
            },
            None => None,
        }
    }

    /// TOML has no null: a null value cannot be written as TOML.
    pub fn check_toml(&self) -> (r: Result<(), Error>)
        ensures
            match r {
                Ok(_) => *self != Value::Null,
                Err(e) => *self == Value::Null && e.spec_kind() == ErrorKind::Parse,
            },
    {
        match self {
            Value::Null => Err(Error::with_message(ErrorKind::Parse, "null values do not exist in toml")),
            _ => Ok(()),
        }
    }

    /// The textual rendering.
    pub fn text(&self) -> (r: String)
        ensures
            r@ == loose_text(*self),
    {
        proof {
            reveal_strlit("null");
            reveal_strlit("true");
            reveal_strlit("false");
            reveal_strlit("-");
        }
        match self {
            Value::Null => String::from_str("null"),
            Value::Bool(b) => String::from_str(if *b { "true" } else { "false" }),
            Value::Float(t) => t.clone(),
            Value::Integer(n) => {
                if *n < 0 {
                    let mut s = String::from_str("-");
                    let m = ((-(*n + 1)) as u128) + 1;
                    s.append(decimal_string(m).as_str());
                    s
                } else {
                    decimal_string(*n as u128)
                }
            },
            Value::Unsigned(n) => decimal_string(*n),
            Value::String(s) => s.clone(),
            Value::Object(t) => t.clone(),
            Value::Array(t) => t.clone(),
        }
    }

    /// A copy of the value.
    pub fn duplicate(&self) -> (r: Value)
        ensures
            r == *self,
    {
        match self {
            Value::Null => Value::Null,
            Value::Bool(b) => Value::Bool(*b),
            Value::Float(t) => Value::Float(t.clone()),
            Value::Integer(n) => Value::Integer(*n),
            Value::Unsigned(n) => Value::Unsigned(*n),
            Value::String(t) => Value::String(t.clone()),
            Value::Object(t) => Value::Object(t.clone()),
            Value::Array(t) => Value::Array(t.clone()),
        }
    }

    /// The JSON text of the value.
    pub fn json_text(&self) -> (r: String)
        ensures
            r@ == json_text(*self),
    {
        match self {
            Value::String(s) => quote_json(s.as_str()),
            _ => self.text(),
        }
    }

    /// Compares the textual renderings of two values.
    pub fn loose_eq(&self, other: &Value) -> (r: bool)
        ensures
            r == loose_eq(*self, *other),
    {
        self.text() == other.text()
    }

    /// Compares two values by kind and content.
    pub fn same_value(&self, other: &Value) -> (r: bool)
        ensures
            r == same_value(*self, *other),
    {
        match (self, other) {
            (Value::Null, Value::Null) => true,
            (Value::Bool(x), Value::Bool(y)) => *x == *y,
            (Value::Integer(x), Value::Integer(y)) => *x == *y,
            (Value::Unsigned(x), Value::Unsigned(y)) => *x == *y,
            (Value::Float(x), Value::Float(y)) => x.eq(y),
            (Value::String(x), Value::String(y)) => x.eq(y),
            (Value::Object(x), Value::Object(y)) => x.eq(y),
            (Value::Array(x), Value::Array(y)) => x.eq(y),
            _ => false,
        }
    }
}

} // verus!
