//! Numbers: the pass-through of numeric nodes and the coercion of numeric
//! text into the narrowest faithful representation.

use crate::error::DecodeError;
use crate::value::{NativeValue, Value};
use vstd::prelude::*;

verus! {

#[verifier::external_type_specification]
#[verifier::external_body]
pub struct ExNumberError(serde_json::Error);

/// What `serde_json::Number` tells of a number that it has parsed: the
/// answers of its three classifying methods and of its three accessors.
///
/// `f64_bits` is the bit pattern of what `as_f64` returns.
#[derive(Clone, Copy, Debug, PartialEq, Eq)]
pub struct NumberFacts {
    pub is_f64: bool,
    pub is_i64: bool,
    pub is_u64: bool,
    pub f64_bits: Option<u64>,
    pub i64_value: Option<i64>,
    pub u64_value: Option<u64>,
}

impl NumberFacts {
    /// Every number has one of the three representations, and each
    /// classifying method that answers yes has a value behind it.
    pub open spec fn wf(self) -> bool {
        &&& self.is_f64 || self.is_i64 || self.is_u64
        &&& self.is_f64 ==> self.f64_bits is Some
        &&& self.is_i64 ==> self.i64_value is Some
        &&& self.is_u64 ==> self.u64_value is Some
    }
}

/// What `serde_json::Number` makes of a text: `None` where the text is not a
/// JSON number.
pub uninterp spec fn number_facts(text: Seq<char>) -> Option<NumberFacts>;

/// Parses `text` with `serde_json::Number::from_str` and reads the number off
/// through `is_f64`, `is_i64`, `is_u64`, `as_f64`, `as_i64` and `as_u64`.
///
/// Trusted: the result is a function of the text alone, named
/// `number_facts`; an error comes exactly where that is `None`; and a parsed
/// number is well formed, as the documentation of the three classifying
/// methods promises.
#[verifier::external_body]
fn number_from_str(text: &str) -> (parsed: Result<NumberFacts, serde_json::Error>)
    ensures
        parsed is Ok <==> number_facts(text@) is Some,
        parsed matches Ok(facts) ==> number_facts(text@) == Some(facts) && facts.wf(),
{
    let n: serde_json::Number = text.parse()?;
    Ok(
        NumberFacts {
            is_f64: n.is_f64(),
            is_i64: n.is_i64(),
            is_u64: n.is_u64(),
            f64_bits: match n.as_f64() {
                Some(f) => Some(f.to_bits()),
                None => None,
            },
            i64_value: n.as_i64(),
            u64_value: n.as_u64(),
        },
    )
}

/// The representation chosen for a parsed number: floating point where the
/// number is one, else a signed integer where it fits, else an unsigned
/// integer. `None` where the chosen representation has no value behind it, or
/// where the number has none of the three.
pub open spec fn coerced(facts: NumberFacts) -> Option<Value> {
    if facts.is_f64 {
        match facts.f64_bits {
            Some(bits) => Some(Value::Float(bits)),
            None => None,
        }
    } else if facts.is_i64 {
        match facts.i64_value {
            Some(i) => Some(Value::SignedInteger(i)),
            None => None,
        }
    } else if facts.is_u64 {
        match facts.u64_value {
            Some(u) => Some(Value::UnsignedInteger(u)),
            None => None,
        }
    } else {
        None
    }
}

/// The value of a numeric text: the representation chosen for the number that
/// the text spells, or a coercion error where it spells none.
pub open spec fn number_value(text: Seq<char>) -> Result<Value, DecodeError> {
    match number_facts(text) {
        Some(facts) => match coerced(facts) {
            Some(v) => Ok(v),
            None => Err(DecodeError::NumericCoercion),
        },
        None => Err(DecodeError::NumericCoercion),
    }
}

/// The model of a decoding result.
pub open spec fn decoded(r: Result<NativeValue, DecodeError>) -> Result<Value, DecodeError> {
    match r {
        Ok(v) => Ok(v@),
        Err(e) => Err(e),
    }
}

/// Chooses the representation of a parsed number, in the order floating
/// point, signed integer, unsigned integer.
pub fn coerce_number(facts: &NumberFacts) -> (r: Result<NativeValue, DecodeError>)
    ensures
        decoded(r) == match coerced(*facts) {
            Some(v) => Ok::<Value, DecodeError>(v),
            None => Err::<Value, DecodeError>(DecodeError::NumericCoercion),
        },
        facts.wf() ==> r is Ok,
{
    if facts.is_f64 {
        match facts.f64_bits {
            Some(bits) => Ok(NativeValue::Float(bits)),
            None => Err(DecodeError::NumericCoercion),
        }
    } else if facts.is_i64 {
        match facts.i64_value {
            Some(i) => Ok(NativeValue::SignedInteger(i)),
            None => Err(DecodeError::NumericCoercion),
        }
    } else if facts.is_u64 {
        match facts.u64_value {
            Some(u) => Ok(NativeValue::UnsignedInteger(u)),
            None => Err(DecodeError::NumericCoercion),
        }
    } else {
        Err(DecodeError::NumericCoercion)
    }
}

/// Coerces a numeric text into a native number. A text that is not a JSON
/// number gives a coercion error.
pub fn parse_number_text(text: &str) -> (r: Result<NativeValue, DecodeError>)
    ensures
        decoded(r) == number_value(text@),
        r is Ok <==> number_facts(text@) is Some,
{
    match number_from_str(text) {
        Ok(facts) => coerce_number(&facts),
        Err(_) => Err(DecodeError::NumericCoercion),
    }
}

/// The signed integer whose two's-complement form is `bits`.
pub open spec fn signed_of_bits(bits: u64) -> int {
    if bits <= i64::MAX as u64 {
        bits as int
    } else {
        bits as int - 0x1_0000_0000_0000_0000
    }
}

/// Reads the eight payload bytes of a node as a signed integer.
pub fn bits_to_i64(bits: u64) -> (i: i64)
    ensures
        i == signed_of_bits(bits),
{
    if bits <= 0x7fff_ffff_ffff_ffff {
        bits as i64
    } else {
        let low: u64 = bits - 0x8000_0000_0000_0000;
        low as i64 + i64::MIN
    }
}

} // verus!
