//! The conversions between JavaScript values and this library's, on either
//! side of a call into a binding: what a bound parameter crosses as, what a
//! returned value is read as, and what a thrown error says.
//!
//! A JavaScript value reaches this module already told apart by its type --
//! the part only JavaScript can do -- with a number given by the bits of its
//! binary64 encoding.
use vstd::prelude::*;
use vstd::string::*;

use crate::error::{DecodeFailure, Error};
use crate::number::{is_safe_integer, number_bits, number_of_integer, safe_whole_number};
use crate::text::{chars_of, contains, contains_exec};
use crate::types::{
    argument_type, decode_error, decoded_is_argument, decodes_as, encode_error, encodes_as, Argument,
    Decoded, RustType,
};
use crate::value::{number_value, safe_integer, Value, ValueError};

verus! {

/// What a bound parameter crosses to JavaScript as.
#[derive(Debug, Clone, PartialEq)]
pub enum JsArgument {
    /// `null`.
    Null,
    /// A number, by the bits of its encoding.
    Number(u64),
    /// A string.
    Text(String),
    /// An `ArrayBuffer` holding these bytes, which both backends store as
    /// `BLOB`.
    Bytes(Vec<u8>),
}

/// A JavaScript value from a result row, by the first of these it is, in
/// this order.
#[derive(Debug, Clone, PartialEq)]
pub enum JsResult {
    /// `null` or `undefined`.
    Null,
    /// A number, by the bits of its encoding.
    Number(u64),
    /// A string.
    Text(String),
    /// A boolean.
    Bool(bool),
    /// An `ArrayBuffer` or a `Uint8Array`, by its bytes.
    Bytes(Vec<u8>),
    /// A plain array, which D1 has returned BLOBs as: each element's number
    /// bits, or `None` for one that is not a number.
    Numbers(Vec<Option<u64>>),
    /// Anything else, as it prints.
    Other(String),
}

/// The byte a JavaScript number is, when it is a whole number from 0 to 255.
pub open spec fn byte_of(number: Option<u64>) -> Option<u8> {
    match number {
        Some(bits) => match number_value(bits) {
            Value::Integer(n) => if 0 <= n <= 255 {
                Some(n as u8)
            } else {
                None
            },
            _ => None,
        },
        None => None,
    }
}

/// The bytes of an array of numbers, when every one is a byte.
pub open spec fn bytes_of(numbers: Seq<Option<u64>>) -> Option<Seq<u8>>
    decreases numbers.len(),
{
    if numbers.len() == 0 {
        Some(Seq::<u8>::empty())
    } else {
        match (bytes_of(numbers.drop_last()), byte_of(numbers.last())) {
            (Some(bytes), Some(b)) => Some(bytes.push(b)),
            _ => None,
        }
    }
}

/// An array of numbers is a BLOB exactly when every element is a byte, and
/// its bytes are the elements, in order.
pub proof fn lemma_bytes_are_the_elements(numbers: Seq<Option<u64>>)
    ensures
        bytes_of(numbers) is Some <==> forall|i: int|
            0 <= i < numbers.len() ==> #[trigger] byte_of(numbers[i]) is Some,
        bytes_of(numbers) matches Some(bytes) ==> bytes.len() == numbers.len() && forall|i: int|
            0 <= i < numbers.len() ==> byte_of(numbers[i]) == Some(#[trigger] bytes[i]),
    decreases numbers.len(),
{
    if numbers.len() > 0 {
        let front = numbers.drop_last();
        lemma_bytes_are_the_elements(front);
        assert forall|i: int| 0 <= i < front.len() implies front[i] == numbers[i] by {}
        if !(byte_of(numbers.last()) is Some) {
            assert(!(byte_of(numbers[numbers.len() - 1]) is Some));
        }
        if bytes_of(front) is None {
            let k = choose|i: int| 0 <= i < front.len() && !(#[trigger] byte_of(front[i]) is Some);
            assert(!(byte_of(numbers[k]) is Some));
        }
    }
}

/// What a parameter crosses as, or why it cannot.
pub open spec fn js_argument_of(value: Value) -> Result<JsArgument, ValueError> {
    match value {
        Value::Null => Ok(JsArgument::Null),
        Value::Integer(v) => if is_safe_integer(v as int) {
            Ok(JsArgument::Number(number_bits(v as int)))
        } else {
            Err(ValueError::UnsafeInteger { value: v })
        },
        Value::Real(bits) => Ok(JsArgument::Number(bits)),
        Value::Text(s) => Ok(JsArgument::Text(s)),
        Value::Blob(b) => Ok(JsArgument::Bytes(b)),
    }
}

/// A JavaScript value a parameter became, as a backend hands it back.
pub open spec fn returned(argument: JsArgument) -> JsResult {
    match argument {
        JsArgument::Null => JsResult::Null,
        JsArgument::Number(bits) => JsResult::Number(bits),
        JsArgument::Text(s) => JsResult::Text(s),
        JsArgument::Bytes(b) => JsResult::Bytes(b),
    }
}

/// A bound parameter as the JavaScript value the binding expects.
///
/// # Errors
///
/// When an integer is outside ±(2^53 − 1) -- checked again here, not only
/// when an `i64` is bound, since any encoder can push any `Integer` it likes.
pub fn to_js(value: &Value) -> (r: Result<JsArgument, ValueError>)
    ensures
        match js_argument_of(*value) {
            Ok(JsArgument::Text(s)) => r matches Ok(JsArgument::Text(t)) && t@ == s@,
            Ok(JsArgument::Bytes(b)) => r matches Ok(JsArgument::Bytes(x)) && x@ == b@,
            other => r == other,
        },
{
    match value {
        Value::Null => Ok(JsArgument::Null),
        Value::Integer(v) => {
            let v = safe_integer(*v)?;
            Ok(JsArgument::Number(number_of_integer(v)))
        },
        Value::Real(bits) => Ok(JsArgument::Number(*bits)),
        Value::Text(s) => Ok(JsArgument::Text(s.clone())),
        Value::Blob(b) => Ok(JsArgument::Bytes(b.clone())),
    }
}

/// `values` as JavaScript values, in placeholder order.
///
/// # Errors
///
/// The first integer outside ±(2^53 − 1).
pub fn to_js_array(values: &[Value]) -> (r: Result<Vec<JsArgument>, ValueError>)
    ensures
        match r {
            Ok(out) => out@.len() == values@.len() && forall|i: int|
                0 <= i < values@.len() ==> match js_argument_of(#[trigger] values@[i]) {
                    Ok(JsArgument::Text(s)) => out@[i] matches JsArgument::Text(t) && t@ == s@,
                    Ok(JsArgument::Bytes(b)) => out@[i] matches JsArgument::Bytes(x) && x@ == b@,
                    Ok(a) => out@[i] == a,
                    Err(_) => false,
                },
            Err(e) => exists|i: int|
                {
                    &&& 0 <= i < values@.len()
                    &&& js_argument_of(#[trigger] values@[i]) == Err::<JsArgument, ValueError>(e)
                    &&& forall|j: int| 0 <= j < i ==> js_argument_of(#[trigger] values@[j]) is Ok
                },
        },
{
    let mut out: Vec<JsArgument> = Vec::new();
    let mut i: usize = 0;
    while i < values.len()
        invariant
            i <= values@.len(),
            out@.len() == i,
            forall|k: int|
                0 <= k < i ==> match js_argument_of(#[trigger] values@[k]) {
                    Ok(JsArgument::Text(s)) => out@[k] matches JsArgument::Text(t) && t@ == s@,
                    Ok(JsArgument::Bytes(b)) => out@[k] matches JsArgument::Bytes(x) && x@ == b@,
                    Ok(a) => out@[k] == a,
                    Err(_) => false,
                },
        decreases values@.len() - i,
    {
        match to_js(&values[i]) {
            Ok(a) => out.push(a),
            Err(e) => {
                proof {
                    assert forall|j: int| 0 <= j < i implies js_argument_of(
                        #[trigger] values@[j],
                    ) is Ok by {
                        if js_argument_of(values@[j]) is Err {
                            assert(false);
                        }
                    }
                    assert(js_argument_of(values@[i as int]) == Err::<JsArgument, ValueError>(e));
                }
                return Err(e);
            },
        }
        i = i + 1;
    }
    Ok(out)
}

/// The byte a JavaScript number is, when it is a whole number from 0 to 255.
fn byte_from_number(number: Option<u64>) -> (r: Option<u8>)
    ensures
        r == byte_of(number),
{
    match number {
        Some(bits) => {
            let value = Value::from_number(bits);
            match value {
                Value::Integer(n) => if 0 <= n && n <= 255 {
                    Some(n as u8)
                } else {
                    None
                },
                _ => None,
            }
        },
        None => None,
    }
}

/// The bytes of a BLOB that came back as a plain array of numbers.
///
/// # Errors
///
/// When an element is not a whole number from 0 to 255.
pub fn bytes_from_numbers(numbers: &Vec<Option<u64>>) -> (r: Result<Vec<u8>, Error>)
    ensures
        match bytes_of(numbers@) {
            Some(bytes) => r matches Ok(v) && v@ == bytes,
            None => r == Err::<Vec<u8>, Error>(Error::Decode(DecodeFailure::NotAByte)),
        },
{
    let mut out: Vec<u8> = Vec::new();
    let mut i: usize = 0;
    while i < numbers.len()
        invariant
            i <= numbers@.len(),
            bytes_of(numbers@.take(i as int)) == Some(out@),
        decreases numbers@.len() - i,
    {
        proof {
            assert(numbers@.take(i + 1).drop_last() =~= numbers@.take(i as int));
        }
        match byte_from_number(numbers[i]) {
            Some(b) => out.push(b),
            None => {
                proof {
                    lemma_bytes_of_prefix_none(numbers@, i as int + 1);
                }
                return Err(Error::Decode(DecodeFailure::NotAByte));
            },
        }
        i = i + 1;
    }
    assert(numbers@.take(i as int) =~= numbers@);
    Ok(out)
}

/// A prefix that is not all bytes makes the whole not all bytes.
proof fn lemma_bytes_of_prefix_none(numbers: Seq<Option<u64>>, n: int)
    requires
        0 <= n <= numbers.len(),
        bytes_of(numbers.take(n)) is None,
    ensures
        bytes_of(numbers) is None,
    decreases numbers.len(),
{
    if n < numbers.len() {
        assert(numbers.drop_last().take(n) =~= numbers.take(n));
        lemma_bytes_of_prefix_none(numbers.drop_last(), n);
    } else {
        assert(numbers.take(n) =~= numbers);
    }
}

/// What a JavaScript value from a result row is read as -- but for an array
/// of numbers, which [`from_js`] reads by [`bytes_of`].
pub open spec fn value_of(result: JsResult) -> Result<Value, Error> {
    match result {
        JsResult::Null => Ok(Value::Null),
        JsResult::Number(bits) => Ok(number_value(bits)),
        JsResult::Text(s) => Ok(Value::Text(s)),
        JsResult::Bool(b) => Ok(Value::Integer(if b { 1 } else { 0 })),
        JsResult::Bytes(b) => Ok(Value::Blob(b)),
        // Read by `bytes_of` instead: see `from_js`.
        JsResult::Numbers(_) => Err(Error::Decode(DecodeFailure::NotAByte)),
        JsResult::Other(shown) => Err(Error::Decode(DecodeFailure::UnexpectedJsType(shown))),
    }
}

/// A JavaScript value from a result row, as a [`Value`]: a number as the
/// integer it equals when that is within ±(2^53 − 1), else a `REAL`; a
/// boolean as 0 or 1; bytes and arrays of bytes as a `BLOB`.
///
/// # Errors
///
/// When the value is of a JavaScript type neither backend returns, or an
/// array that is not all bytes.
pub fn from_js(result: JsResult) -> (r: Result<Value, Error>)
    ensures
        match result {
            JsResult::Numbers(numbers) => match bytes_of(numbers@) {
                Some(bytes) => r matches Ok(Value::Blob(b)) && b@ == bytes,
                None => r == Err::<Value, Error>(Error::Decode(DecodeFailure::NotAByte)),
            },
            _ => r == value_of(result),
        },
{
    match result {
        JsResult::Null => Ok(Value::Null),
        JsResult::Number(bits) => Ok(Value::from_number(bits)),
        JsResult::Text(s) => Ok(Value::Text(s)),
        JsResult::Bool(b) => Ok(Value::Integer(if b { 1 } else { 0 })),
        JsResult::Bytes(b) => Ok(Value::Blob(b)),
        JsResult::Numbers(numbers) => Ok(Value::Blob(bytes_from_numbers(&numbers)?)),
        JsResult::Other(shown) => Err(Error::Decode(DecodeFailure::UnexpectedJsType(shown))),
    }
}

/// What a value bound as a parameter is read back as, once it has crossed to
/// JavaScript and back: itself, but for a `REAL` that is a whole number in
/// the safe range, which comes back an `INTEGER` -- JavaScript cannot tell
/// `3.0` from `3`.
pub proof fn lemma_value_crosses_javascript(value: Value)
    requires
        js_argument_of(value) is Ok,
    ensures
        value_of(returned(js_argument_of(value)->Ok_0)) == match value {
            Value::Real(bits) => Ok::<Value, Error>(number_value(bits)),
            _ => Ok::<Value, Error>(value),
        },
{
    if let Value::Integer(v) = value {
        crate::number::lemma_nearest_number_of_safe(v as int);
        crate::number::lemma_number_bits_of_safe(v as int);
        crate::value::lemma_safe_integer_round_trip(v as int, number_bits(v as int));
    }
}

/// Every Rust value bound as a parameter, once it has crossed to
/// JavaScript and back, decodes as its own type to the value it was --
/// but `-0.0`, which JavaScript hands back as `0` and so reads back as
/// `0.0`.
pub proof fn lemma_written_value_reads_back(
    argument: Argument,
    value: Value,
    crossed: Value,
    decoded: Decoded,
)
    requires
        !(argument is Null),
        argument != Argument::Real(0x8000_0000_0000_0000u64),
        encode_error(argument) is None,
        encodes_as(argument, value),
        value_of(returned(js_argument_of(value)->Ok_0)) == Ok::<Value, Error>(crossed),
        decodes_as(crossed, argument_type(argument), decoded),
    ensures
        js_argument_of(value) is Ok,
        decode_error(crossed, argument_type(argument)) is None,
        decoded_is_argument(decoded, argument),
{
    assert(js_argument_of(value) is Ok);
    lemma_value_crosses_javascript(value);
    match argument {
        Argument::Real(bits) => {
            crate::value::lemma_number_read_back_as_real(bits);
            assert(argument_type(argument) == RustType::F64);
        },
        _ => {
            assert(crossed == value);
            crate::types::lemma_encode_then_decode(argument, value, decoded);
        },
    }
}

/// The message of an error a binding threw: its summary, and the cause's
/// message after it unless the summary already says it.
pub open spec fn combined_message(message: Seq<char>, cause: Option<Seq<char>>) -> Seq<char> {
    match cause {
        Some(c) => if contains(message, c) {
            message
        } else {
            message + ": "@ + c
        },
        None => message,
    }
}

/// The message of an error a binding threw, from its `message` and, when
/// it has one, its `cause`'s: D1 wraps SQLite's message, and the cause
/// carries SQLite's own text -- the part the error kind is read from -- so
/// both are kept.
pub fn error_message(message: String, cause: Option<String>) -> (r: String)
    ensures
        r@ == combined_message(message@, match cause {
            Some(c) => Some(c@),
            None => None,
        }),
{
    match cause {
        Some(cause) => {
            if contains_exec(&chars_of(message.as_str()), &chars_of(cause.as_str())) {
                message
            } else {
                let mut combined = message;
                combined.append(": ");
                combined.append(cause.as_str());
                combined
            }
        },
        None => message,
    }
}

} // verus!
