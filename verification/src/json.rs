//! JSON values in the compiler graphs: attribute values and literals, held as
//! the plain values the compiler reads from them.

use vstd::prelude::*;

verus! {

/// Structured JSON values of `serde_json` (numeric contracts, counterexamples,
/// other payloads) are carried through unchanged and never inspected in
/// verified code.
#[verifier::external_type_specification]
#[verifier::external_body]
pub struct ExJsonValue(serde_json::Value);

/// A JSON attribute value or literal, as the compiler reads it.
#[derive(Debug)]
pub enum JsonLit {
    /// A JSON boolean.
    Bool(bool),
    /// A JSON number.
    Number {
        /// The number as a 64-bit integer, when it is one.
        integer: Option<i64>,
        /// The bits of the number rounded to binary32.
        binary32: u32,
        /// The number itself.
        raw: serde_json::Value,
    },
    /// A JSON string.
    Text(String),
    /// Any other JSON value (null, array or object), carried unchanged.
    Other(serde_json::Value),
}

/// The boolean a value holds.
pub open spec fn lit_bool(v: JsonLit) -> Option<bool> {
    match v {
        JsonLit::Bool(b) => Some(b),
        _ => None,
    }
}

/// The 64-bit integer a value holds.
pub open spec fn lit_int(v: JsonLit) -> Option<i64> {
    match v {
        JsonLit::Number { integer, .. } => integer,
        _ => None,
    }
}

/// The binary32 rounding of the number a value holds.
pub open spec fn lit_binary32(v: JsonLit) -> Option<u32> {
    match v {
        JsonLit::Number { binary32, .. } => Some(binary32),
        _ => None,
    }
}

/// The text a value holds.
pub open spec fn lit_text(v: JsonLit) -> Option<Seq<char>> {
    match v {
        JsonLit::Text(s) => Some(s@),
        _ => None,
    }
}

/// Clones a JSON value with `serde_json::Value::clone`.
///
/// Trusted: the clone is the same JSON value.
#[verifier::external_body]
pub(crate) fn clone_json(value: &serde_json::Value) -> (r: serde_json::Value)
    ensures
        r == *value,
{
    value.clone()
}

impl JsonLit {
    /// Copies the value.
    pub fn copy(&self) -> (r: Self)
        ensures
            r == *self,
    {
        match self {
            JsonLit::Bool(b) => JsonLit::Bool(*b),
            JsonLit::Number { integer, binary32, raw } => JsonLit::Number { integer: *integer, binary32: *binary32, raw: clone_json(raw) },
            JsonLit::Text(s) => JsonLit::Text(s.clone()),
            JsonLit::Other(raw) => JsonLit::Other(clone_json(raw)),
        }
    }

    /// Returns the text a value holds.
    pub fn text(&self) -> (r: Option<&str>)
        ensures
            match r {
                Some(s) => lit_text(*self) == Some(s@),
                None => lit_text(*self) is None,
            },
    {
        match self {
            JsonLit::Text(s) => Some(s.as_str()),
            _ => None,
        }
    }
}

} // verus!
