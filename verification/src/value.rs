//! The value model both backends share: one SQLite value on the Rust side of
//! the JavaScript boundary, bound and read alike.
use vstd::prelude::*;
use vstd::string::*;
use vstd::utf8::encode_utf8;

use crate::number::{
    is_safe_integer, is_safe_whole_number, lemma_nearest_number_of_safe,
    lemma_number_equals_one_integer, nearest_number, lemma_bits_of_integer_unique, lemma_zero_bits, number_bits, number_equals_integer,
    number_of_integer, safe_whole_number, MAX_SAFE_INTEGER,
};
use crate::types::RustType;

verus! {

/// The storage class of a single value, which is all these backends report.
///
/// There is no declared column type to go on: D1 and Durable Object storage
/// hand back JavaScript values, not SQLite's column metadata. So the type is
/// read off each value as it arrives, and a column's type is the type of
/// whatever is in it.
#[derive(Debug, Clone, Copy, PartialEq, Eq, Hash, Structural)]
pub enum TypeInfo {
    /// A `NULL` value, or a column with no non-`NULL` value to type it by.
    Null,
    /// A whole number within ±(2^53 − 1).
    Integer,
    /// Any other number.
    Real,
    /// A string.
    Text,
    /// Bytes.
    Blob,
}

/// D1's name for [`TypeInfo`]: both backends are SQLite behind a JavaScript
/// API, so the storage classes are the same.
pub type D1TypeInfo = TypeInfo;

/// The name SQLite gives each storage class.
pub open spec fn storage_class_name(ty: TypeInfo) -> Seq<char> {
    match ty {
        TypeInfo::Null => "NULL"@,
        TypeInfo::Integer => "INTEGER"@,
        TypeInfo::Real => "REAL"@,
        TypeInfo::Text => "TEXT"@,
        TypeInfo::Blob => "BLOB"@,
    }
}

impl TypeInfo {
    /// Whether this is the `NULL` storage class.
    pub fn is_null(&self) -> (r: bool)
        ensures
            r == (*self == TypeInfo::Null),
    {
        match self {
            TypeInfo::Null => true,
            _ => false,
        }
    }

    /// The storage class's name: `NULL`, `INTEGER`, `REAL`, `TEXT` or `BLOB`.
    pub fn name(&self) -> (r: &'static str)
        ensures
            r@ == storage_class_name(*self),
    {
        match self {
            TypeInfo::Null => "NULL",
            TypeInfo::Integer => "INTEGER",
            TypeInfo::Real => "REAL",
            TypeInfo::Text => "TEXT",
            TypeInfo::Blob => "BLOB",
        }
    }
}

/// One SQLite value on the Rust side of the JavaScript boundary, in either
/// direction: a parameter a query binds, or a value a result row holds.
#[derive(Debug, Clone, PartialEq)]
pub enum Value {
    /// SQL `NULL`: JavaScript `null`.
    Null,
    /// A whole number, within ±(2^53 − 1) when it comes from a result,
    /// because it crosses as a JavaScript number and not a `BigInt`.
    Integer(i64),
    /// Any other number, stored as `REAL`: the bits of its IEEE 754 binary64
    /// encoding.
    Real(u64),
    /// A JavaScript string, stored as `TEXT`.
    Text(String),
    /// An `ArrayBuffer`, stored as `BLOB`.
    Blob(Vec<u8>),
}

/// What reading or binding a value can go wrong with.
#[derive(Debug, Clone, PartialEq, Eq)]
pub enum ValueError {
    /// An integer outside ±(2^53 − 1): a JavaScript number would carry it
    /// as a different integer.
    UnsafeInteger { value: i64 },
    /// A value of one storage class read as another.
    Mismatch { expected: TypeInfo, found: TypeInfo },
    /// An integer that does not fit the narrower Rust type asked for.
    OutOfRange { value: i64, target: RustType },
}

/// The storage class of a value.
pub open spec fn value_type(value: Value) -> TypeInfo {
    match value {
        Value::Null => TypeInfo::Null,
        Value::Integer(_) => TypeInfo::Integer,
        Value::Real(_) => TypeInfo::Real,
        Value::Text(_) => TypeInfo::Text,
        Value::Blob(_) => TypeInfo::Blob,
    }
}

/// Two values hold the same thing: the same storage class and contents.
pub open spec fn same_value(a: Value, b: Value) -> bool {
    match (a, b) {
        (Value::Null, Value::Null) => true,
        (Value::Integer(x), Value::Integer(y)) => x == y,
        (Value::Real(x), Value::Real(y)) => x == y,
        (Value::Text(x), Value::Text(y)) => x@ == y@,
        (Value::Blob(x), Value::Blob(y)) => x@ == y@,
        _ => false,
    }
}

/// The value a JavaScript number with these bits is read as: the integer it
/// equals when that is within ±(2^53 − 1), else a `REAL`.
pub open spec fn number_value(bits: u64) -> Value {
    if is_safe_whole_number(bits) {
        Value::Integer(
            (choose|n: int| is_safe_integer(n) && number_equals_integer(bits, n)) as i64,
        )
    } else {
        Value::Real(bits)
    }
}

/// `value`, if a JavaScript number can carry it without rounding.
///
/// Both backends take and return JavaScript numbers, never `BigInt`, so an
/// integer outside ±(2^53 − 1) would come back as a different integer. That
/// is an error here rather than a silently wrong row.
pub fn safe_integer(value: i64) -> (r: Result<i64, ValueError>)
    ensures
        is_safe_integer(value as int) ==> r == Ok::<i64, ValueError>(value),
        !is_safe_integer(value as int) ==> r == Err::<i64, ValueError>(
            ValueError::UnsafeInteger { value },
        ),
{
    if -MAX_SAFE_INTEGER <= value && value <= MAX_SAFE_INTEGER {
        Ok(value)
    } else {
        Err(ValueError::UnsafeInteger { value })
    }
}

impl Value {
    /// A JavaScript number, given by the bits of its binary64 encoding, as
    /// the storage class it most likely came from.
    ///
    /// JavaScript has one number type, so `3` and `3.0` arrive the same. A
    /// whole number in the safe range is taken as an `Integer` -- which is
    /// why `f64` decodes from `Integer` as well as `Real`. Anything else,
    /// including whole numbers too large to be exact, is a `Real`.
    pub fn from_number(bits: u64) -> (r: Value)
        ensures
            r == number_value(bits),
    {
        match safe_whole_number(bits) {
            Some(n) => {
                proof {
                    let m = choose|m: int| is_safe_integer(m) && number_equals_integer(bits, m);
                    lemma_number_equals_one_integer(bits, n as int, m);
                }
                Value::Integer(n)
            },
            None => Value::Real(bits),
        }
    }

    /// The value's storage class.
    pub fn type_info(&self) -> (r: TypeInfo)
        ensures
            r == value_type(*self),
    {
        match self {
            Value::Null => TypeInfo::Null,
            Value::Integer(_) => TypeInfo::Integer,
            Value::Real(_) => TypeInfo::Real,
            Value::Text(_) => TypeInfo::Text,
            Value::Blob(_) => TypeInfo::Blob,
        }
    }

    /// Whether the value is `NULL`.
    pub fn is_null(&self) -> (r: bool)
        ensures
            r == (*self is Null),
    {
        match self {
            Value::Null => true,
            _ => false,
        }
    }

    // The accessors decoding uses. Each accepts exactly the storage classes
    // the matching `compatible` does, so a checked and an unchecked read
    // agree about what decodes.
    /// An `INTEGER`.
    pub fn integer(&self) -> (r: Result<i64, ValueError>)
        ensures
            match *self {
                Value::Integer(v) => r == Ok::<i64, ValueError>(v),
                _ => r == Err::<i64, ValueError>(
                    ValueError::Mismatch { expected: TypeInfo::Integer, found: value_type(*self) },
                ),
            },
    {
        match self {
            Value::Integer(value) => Ok(*value),
            other => Err(ValueError::Mismatch { expected: TypeInfo::Integer, found: other.type_info() }),
        }
    }

    /// A `REAL`, or an `INTEGER` as one: the bits of the number, which for an
    /// `INTEGER` is the number nearest to it -- the integer itself within
    /// ±2^53.
    pub fn real_bits(&self) -> (r: Result<u64, ValueError>)
        ensures
            match *self {
                Value::Real(bits) => r == Ok::<u64, ValueError>(bits),
                Value::Integer(v) => r == Ok::<u64, ValueError>(number_bits(v as int)),
                _ => r == Err::<u64, ValueError>(
                    ValueError::Mismatch { expected: TypeInfo::Real, found: value_type(*self) },
                ),
            },
    {
        match self {
            Value::Real(bits) => Ok(*bits),
            Value::Integer(value) => Ok(number_of_integer(*value)),
            other => Err(ValueError::Mismatch { expected: TypeInfo::Real, found: other.type_info() }),
        }
    }

    /// `TEXT`.
    pub fn text(&self) -> (r: Result<&str, ValueError>)
        ensures
            match *self {
                Value::Text(s) => r matches Ok(t) && t@ == s@,
                _ => r == Err::<&str, ValueError>(
                    ValueError::Mismatch { expected: TypeInfo::Text, found: value_type(*self) },
                ),
            },
    {
        match self {
            Value::Text(value) => Ok(value.as_str()),
            other => Err(ValueError::Mismatch { expected: TypeInfo::Text, found: other.type_info() }),
        }
    }

    /// A `BLOB`, or `TEXT` as its UTF-8 bytes.
    pub fn blob(&self) -> (r: Result<&[u8], ValueError>)
        ensures
            match *self {
                Value::Blob(b) => r matches Ok(t) && t@ == b@,
                Value::Text(s) => r matches Ok(t) && t@ == encode_utf8(s@),
                _ => r == Err::<&[u8], ValueError>(
                    ValueError::Mismatch { expected: TypeInfo::Blob, found: value_type(*self) },
                ),
            },
    {
        match self {
            Value::Blob(value) => Ok(value.as_slice()),
            // As SQLite does: it hands TEXT to `sqlite3_column_blob` as its
            // bytes.
            Value::Text(value) => Ok(value.as_str().as_bytes()),
            other => Err(ValueError::Mismatch { expected: TypeInfo::Blob, found: other.type_info() }),
        }
    }
}

/// A number read back as a value and then as a `REAL` keeps its bits -- all
/// but −0, which JavaScript cannot tell from 0 and which comes back as +0.
pub proof fn lemma_number_read_back_as_real(bits: u64)
    requires
        bits != 0x8000_0000_0000_0000u64,
    ensures
        match number_value(bits) {
            Value::Integer(n) => number_bits(n as int) == bits,
            Value::Real(b) => b == bits,
            _ => false,
        },
{
    if is_safe_whole_number(bits) {
        let n = choose|n: int| is_safe_integer(n) && number_equals_integer(bits, n);
        lemma_nearest_number_of_safe(n);
        if n != 0 {
            let b = choose|b: u64| number_equals_integer(b, nearest_number(n));
            lemma_bits_of_integer_unique(bits, b, n);
        } else {
            lemma_zero_bits(bits);
        }
    }
}

/// A JavaScript number that equals a safe integer is read as that integer:
/// a safe integer crosses to a JavaScript number and back unchanged.
pub proof fn lemma_safe_integer_round_trip(v: int, bits: u64)
    requires
        is_safe_integer(v),
        number_equals_integer(bits, nearest_number(v)),
    ensures
        number_value(bits) == Value::Integer(v as i64),
{
    lemma_nearest_number_of_safe(v);
    let m = choose|m: int| is_safe_integer(m) && number_equals_integer(bits, m);
    assert(is_safe_integer(v) && number_equals_integer(bits, v));
    lemma_number_equals_one_integer(bits, v, m);
}

} // verus!
