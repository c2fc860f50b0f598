//! A JSON document as plain values, with the lookups that the PipeWire and
//! MPV readers make: member by key, text, unsigned integer, array.

use vstd::prelude::*;
use crate::seq_search::{first_where, lemma_first_where, lemma_first_where_at, lemma_first_where_none};
use crate::text::str_eq;
use serde_json::Value;

verus! {

/// A JSON number: a non-negative integer, a negative integer, or any other
/// number, held by the bits of its IEEE-754 double.
#[derive(Debug, Clone, Copy, PartialEq, Eq, Structural)]
pub enum JsonNumber {
    PosInt(u64),
    NegInt(i64),
    Float(u64),
}

/// A JSON value. An object keeps its members in document order, each key once.
#[derive(Debug)]
pub enum JsonValue {
    Null,
    Bool(bool),
    Number(JsonNumber),
    Str(String),
    Array(Vec<JsonValue>),
    Object(Vec<(String, JsonValue)>),
}

/// The member has the key `k`.
pub open spec fn key_is(k: Seq<char>) -> spec_fn((String, JsonValue)) -> bool {
    |m: (String, JsonValue)| m.0@ == k
}

/// The member of an object with key `k` (`Value::get`); `None` for other values.
pub open spec fn json_get(v: JsonValue, k: Seq<char>) -> Option<JsonValue> {
    match v {
        JsonValue::Object(ms) => match first_where(ms@, key_is(k), 0) {
            Some(i) => Some(ms@[i].1),
            None => None,
        },
        _ => None,
    }
}

/// `json_get` lifted to an optional value.
pub open spec fn json_get_opt(v: Option<JsonValue>, k: Seq<char>) -> Option<JsonValue> {
    match v {
        Some(x) => json_get(x, k),
        None => None,
    }
}

/// The text of a string value (`Value::as_str`).
pub open spec fn json_str(v: Option<JsonValue>) -> Option<Seq<char>> {
    match v {
        Some(JsonValue::Str(s)) => Some(s@),
        _ => None,
    }
}

/// The value of a non-negative integer (`Value::as_u64`).
pub open spec fn json_u64(v: Option<JsonValue>) -> Option<u64> {
    match v {
        Some(JsonValue::Number(JsonNumber::PosInt(n))) => Some(n),
        _ => None,
    }
}

/// The elements of an array (`Value::as_array`).
pub open spec fn json_array(v: Option<JsonValue>) -> Option<Seq<JsonValue>> {
    match v {
        Some(JsonValue::Array(a)) => Some(a@),
        _ => None,
    }
}

impl JsonValue {
    /// The member with key `key`, when this is an object that has one.
    pub fn get(&self, key: &str) -> (r: Option<&JsonValue>)
        ensures
            match json_get(*self, key@) {
                Some(x) => r == Some(&x),
                None => r is None,
            },
    {
        match self {
            JsonValue::Object(ms) => {
                let mut i: usize = 0;
                while i < ms.len()
                    invariant
                        *self == JsonValue::Object(*ms),
                        i <= ms@.len(),
                        forall|j: int| 0 <= j < i ==> !key_is(key@)(#[trigger] ms@[j]),
                    decreases ms@.len() - i,
                {
                    if str_eq(ms[i].0.as_str(), key) {
                        proof {
                            lemma_first_where_at(ms@, key_is(key@), i as int);
                        }
                        return Some(&ms[i].1);
                    }
                    i = i + 1;
                }
                proof {
                    lemma_first_where_none(ms@, key_is(key@));
                }
                None
            },
            _ => None,
        }
    }

    /// The text of this value, when it is a string.
    pub fn as_str(&self) -> (r: Option<&str>)
        ensures
            match json_str(Some(*self)) {
                Some(s) => r matches Some(t) && t@ == s,
                None => r is None,
            },
    {
        match self {
            JsonValue::Str(s) => Some(s.as_str()),
            _ => None,
        }
    }

    /// The value of this number, when it is a non-negative integer.
    pub fn as_u64(&self) -> (r: Option<u64>)
        ensures
            r == json_u64(Some(*self)),
    {
        match self {
            JsonValue::Number(JsonNumber::PosInt(n)) => Some(*n),
            _ => None,
        }
    }

    /// The elements of this value, when it is an array.
    pub fn as_array(&self) -> (r: Option<&Vec<JsonValue>>)
        ensures
            match json_array(Some(*self)) {
                Some(a) => r matches Some(v) && v@ == a,
                None => r is None,
            },
    {
        match self {
            JsonValue::Array(a) => Some(a),
            _ => None,
        }
    }
}

/// `get` on an optional value.
pub fn get_opt<'a>(v: Option<&'a JsonValue>, key: &str) -> (r: Option<&'a JsonValue>)
    ensures
        match json_get_opt(
            match v {
                Some(x) => Some(*x),
                None => None,
            },
            key@,
        ) {
            Some(x) => r == Some(&x),
            None => r is None,
        },
{
    match v {
        Some(x) => x.get(key),
        None => None,
    }
}

/// `as_str` on an optional value.
pub fn str_opt<'a>(v: Option<&'a JsonValue>) -> (r: Option<&'a str>)
    ensures
        match json_str(
            match v {
                Some(x) => Some(*x),
                None => None,
            },
        ) {
            Some(s) => r matches Some(t) && t@ == s,
            None => r is None,
        },
{
    match v {
        Some(x) => x.as_str(),
        None => None,
    }
}

/// `as_u64` on an optional value.
pub fn u64_opt(v: Option<&JsonValue>) -> (r: Option<u64>)
    ensures
        r == json_u64(
            match v {
                Some(x) => Some(*x),
                None => None,
            },
        ),
{
    match v {
        Some(x) => x.as_u64(),
        None => None,
    }
}

/// `f64::from_bits(bits) as u32`: the double's integer part toward zero,
/// with negative values, NaN and values below one giving 0 and values of
/// 2^32 and more (and +infinity) giving `u32::MAX`. A normal double with
/// biased exponent `e` and fraction `f` is `(2^52 + f) * 2^(e - 1075)`.
pub open spec fn f64_bits_as_u32(bits: u64) -> u32 {
    let sign = bits >> 63u64;
    let exp = (bits >> 52u64) & 0x7FFu64;
    let frac = bits & 0xF_FFFF_FFFF_FFFFu64;
    if exp == 0x7FF {
        if frac == 0 && sign == 0 {
            u32::MAX
        } else {
            0
        }
    } else if sign == 1 || exp < 1023 {
        0
    } else if exp >= 1055 {
        u32::MAX
    } else {
        (((0x10_0000_0000_0000u64 + frac) as u64) >> ((1075 - exp) as u64)) as u32
    }
}

/// `Number::as_f64` followed by `as u32`: an integer saturates at
/// `u32::MAX`, a negative integer gives 0, any other number as its double does.
pub open spec fn number_as_u32(n: JsonNumber) -> u32 {
    match n {
        JsonNumber::PosInt(u) => if u <= u32::MAX {
            u as u32
        } else {
            u32::MAX
        },
        JsonNumber::NegInt(_) => 0,
        JsonNumber::Float(b) => f64_bits_as_u32(b),
    }
}

/// A JSON number read as a double and cut to `u32` (`as_f64().unwrap_or(0.0) as u32`).
pub fn number_to_u32(n: JsonNumber) -> (r: u32)
    ensures
        r == number_as_u32(n),
{
    match n {
        JsonNumber::PosInt(u) => if u <= 0xFFFF_FFFF {
            u as u32
        } else {
            0xFFFF_FFFF
        },
        JsonNumber::NegInt(_) => 0,
        JsonNumber::Float(bits) => {
            let sign = bits >> 63u64;
            let exp = (bits >> 52u64) & 0x7FFu64;
            let frac = bits & 0xF_FFFF_FFFF_FFFFu64;
            if exp == 0x7FF {
                if frac == 0 && sign == 0 {
                    0xFFFF_FFFF
                } else {
                    0
                }
            } else if sign == 1 || exp < 1023 {
                0
            } else if exp >= 1055 {
                0xFFFF_FFFF
            } else {
                assert(frac < 0x10_0000_0000_0000u64) by (bit_vector)
                    requires
                        frac == bits & 0xF_FFFF_FFFF_FFFFu64,
                ;
                let m: u64 = 0x10_0000_0000_0000u64 + frac;
                let sh: u64 = 1075 - exp;
                let v: u64 = m >> sh;
                assert(v < 0x1_0000_0000u64) by (bit_vector)
                    requires
                        m < 0x20_0000_0000_0000u64,
                        21 <= sh < 64,
                        v == m >> sh,
                ;
                v as u32
            }
        },
    }
}

} // verus!

verus! {

// ---------------------------------------------------------------------------
// Reading a document from bytes (serde_json)
// ---------------------------------------------------------------------------

/// A document as `serde_json` holds it.
#[verifier::external_type_specification]
#[verifier::external_body]
pub struct ExSerdeDocument(serde_json::Value);

/// The document that `b` holds, as `serde_json::from_slice::<Value>` reads
/// it, taken value for value into a [`JsonValue`]; `None` where the bytes
/// are not one JSON document.
pub uninterp spec fn json_document(b: Seq<u8>) -> Option<JsonValue>;

/// `serde_json::from_slice::<serde_json::Value>` on `b`. The contract claims
/// only that the result is a function of the bytes (`json_document`): the
/// JSON grammar itself is serde_json's, and nothing here restates it.
#[verifier::external_body]
pub(crate) fn parse_json_document(b: &[u8]) -> (r: Option<JsonValue>)
    ensures
        r == json_document(b@),
{
    match serde_json::from_slice::<Value>(b) {
        Ok(v) => Some(from_serde_document(&v)),
        Err(_) => None,
    }
}

/// A `serde_json::Value` taken variant for variant into a [`JsonValue`]:
/// an integer that fits `u64` is `PosInt`, another integer `NegInt`, any
/// other number `Float` with its double's bits; object members keep the
/// order in which `serde_json`'s map walks them.
#[verifier::external_body]
fn from_serde_document(v: &Value) -> JsonValue {
    match v {
        Value::Null => JsonValue::Null,
        Value::Bool(b) => JsonValue::Bool(*b),
        Value::Number(n) => JsonValue::Number(match (n.as_u64(), n.as_i64()) {
            (Some(u), _) => JsonNumber::PosInt(u),
            (_, Some(i)) => JsonNumber::NegInt(i),
            _ => JsonNumber::Float(n.as_f64().unwrap_or_default().to_bits()),
        }),
        Value::String(s) => JsonValue::Str(s.clone()),
        Value::Array(a) => JsonValue::Array(a.iter().map(from_serde_document).collect()),
        Value::Object(m) => JsonValue::Object(
            m.iter().map(|(k, x)| (k.clone(), from_serde_document(x))).collect(),
        ),
    }
}

} // verus!
