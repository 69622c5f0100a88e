//! The mapping between the Rust types these backends can store and the
//! storage classes they are stored as.
//!
//! | Rust | Stored as | Notes |
//! |---|---|---|
//! | `bool` | `INTEGER` 0/1 | any non-zero integer decodes as `true` |
//! | `i8`, `i16`, `i32`, `u8`, `u16`, `u32` | `INTEGER` | decoding a value that does not fit is an error |
//! | `i64` | `INTEGER` | only within ±(2^53 − 1), in both directions |
//! | `f32`, `f64` | `REAL` | also decode from `INTEGER` |
//! | `&str`, `String`, `Box<str>`, `Arc<str>`, `Cow<str>` | `TEXT` | |
//! | `&[u8]`, `Vec<u8>`, `Box<[u8]>`, `Arc<[u8]>` | `BLOB` | also decode from `TEXT`, as its bytes |
//!
//! `u64` is deliberately missing: there is nothing it could be stored as
//! without losing most of its range.
use vstd::prelude::*;
use vstd::slice::slice_to_vec;
use vstd::string::*;
use vstd::utf8::encode_utf8;

use crate::number::{is_safe_integer, number_bits};
use crate::value::{safe_integer, value_type, TypeInfo, Value, ValueError};

verus! {

/// The Rust types these backends can store, each standing for the family of
/// types that map alike (`Str` for `&str`, `String`, `Box<str>`, ...).
#[derive(Debug, Clone, Copy, PartialEq, Eq, Structural)]
pub enum RustType {
    Bool,
    I8,
    I16,
    I32,
    U8,
    U16,
    U32,
    I64,
    F32,
    F64,
    Str,
    Bytes,
}

/// The storage class a Rust type is declared as.
pub open spec fn declared_type(target: RustType) -> TypeInfo {
    match target {
        RustType::F32 | RustType::F64 => TypeInfo::Real,
        RustType::Str => TypeInfo::Text,
        RustType::Bytes => TypeInfo::Blob,
        _ => TypeInfo::Integer,
    }
}

/// The storage classes a Rust type decodes from.
pub open spec fn is_compatible(target: RustType, ty: TypeInfo) -> bool {
    match target {
        // A whole number stored as REAL comes back typed INTEGER, because
        // JavaScript cannot tell `3.0` from `3`.
        RustType::F32 | RustType::F64 => ty == TypeInfo::Real || ty == TypeInfo::Integer,
        // TEXT as well, read as its bytes.
        RustType::Bytes => ty == TypeInfo::Blob || ty == TypeInfo::Text,
        _ => ty == declared_type(target),
    }
}

/// Whether a Rust type is one of the integers narrower than `i64`.
pub open spec fn is_narrow_integer(target: RustType) -> bool {
    match target {
        RustType::I8 | RustType::I16 | RustType::I32 | RustType::U8 | RustType::U16
        | RustType::U32 => true,
        _ => false,
    }
}

/// The smallest value of a narrow integer type.
pub open spec fn narrow_min(target: RustType) -> int {
    match target {
        RustType::I8 => -0x80,
        RustType::I16 => -0x8000,
        RustType::I32 => -0x8000_0000,
        _ => 0,
    }
}

/// The largest value of a narrow integer type.
pub open spec fn narrow_max(target: RustType) -> int {
    match target {
        RustType::I8 => 0x7f,
        RustType::I16 => 0x7fff,
        RustType::I32 => 0x7fff_ffff,
        RustType::U8 => 0xff,
        RustType::U16 => 0xffff,
        _ => 0xffff_ffff,
    }
}

/// A value decoded into a Rust type of the mapping.
///
/// `Real` holds the bits of an `f64`; an `f32` is that `f64` narrowed, which
/// is what asking for an `f32` means.
#[derive(Debug, Clone, PartialEq)]
pub enum Decoded {
    Bool(bool),
    Integer(i64),
    Real(u64),
    Text(String),
    Bytes(Vec<u8>),
}

/// A Rust value bound as a parameter: each variant is what a family of Rust
/// types encodes from. `Real` holds the bits of an `f64`; an `f32` is widened
/// to one first, which is exact.
#[derive(Debug, Clone, PartialEq)]
pub enum Argument {
    /// `None` of any `Option`.
    Null,
    Bool(bool),
    I8(i8),
    I16(i16),
    I32(i32),
    U8(u8),
    U16(u16),
    U32(u32),
    I64(i64),
    Real(u64),
    Text(String),
    Bytes(Vec<u8>),
}

/// Why decoding `value` as `target` fails, if it does.
pub open spec fn decode_error(value: Value, target: RustType) -> Option<ValueError> {
    let found = value_type(value);
    match target {
        RustType::F32 | RustType::F64 => match value {
            Value::Integer(_) | Value::Real(_) => None,
            _ => Some(ValueError::Mismatch { expected: TypeInfo::Real, found }),
        },
        RustType::Str => match value {
            Value::Text(_) => None,
            _ => Some(ValueError::Mismatch { expected: TypeInfo::Text, found }),
        },
        RustType::Bytes => match value {
            Value::Blob(_) | Value::Text(_) => None,
            _ => Some(ValueError::Mismatch { expected: TypeInfo::Blob, found }),
        },
        _ => match value {
            Value::Integer(i) => if is_narrow_integer(target) && !(narrow_min(target) <= i
                <= narrow_max(target)) {
                Some(ValueError::OutOfRange { value: i, target })
            } else {
                None
            },
            _ => Some(ValueError::Mismatch { expected: TypeInfo::Integer, found }),
        },
    }
}

/// `decoded` is what `value` decodes to as `target`.
pub open spec fn decodes_as(value: Value, target: RustType, decoded: Decoded) -> bool {
    match target {
        RustType::Bool => value matches Value::Integer(i) && decoded == Decoded::Bool(i != 0),
        RustType::F32 | RustType::F64 => match value {
            Value::Real(b) => decoded == Decoded::Real(b),
            Value::Integer(i) => decoded == Decoded::Real(number_bits(i as int)),
            _ => false,
        },
        RustType::Str => value matches Value::Text(s) && decoded matches Decoded::Text(t) && t@
            == s@,
        RustType::Bytes => match value {
            Value::Blob(b) => decoded matches Decoded::Bytes(x) && x@ == b@,
            Value::Text(s) => decoded matches Decoded::Bytes(x) && x@ == encode_utf8(s@),
            _ => false,
        },
        _ => value matches Value::Integer(i) && decoded == Decoded::Integer(i),
    }
}

/// Why encoding `argument` fails, if it does.
pub open spec fn encode_error(argument: Argument) -> Option<ValueError> {
    match argument {
        Argument::I64(v) => if is_safe_integer(v as int) {
            None
        } else {
            Some(ValueError::UnsafeInteger { value: v })
        },
        _ => None,
    }
}

/// `value` is what `argument` encodes to.
pub open spec fn encodes_as(argument: Argument, value: Value) -> bool {
    match argument {
        Argument::Null => value == Value::Null,
        Argument::Bool(b) => value == Value::Integer(if b { 1 } else { 0 }),
        Argument::I8(v) => value == Value::Integer(v as i64),
        Argument::I16(v) => value == Value::Integer(v as i64),
        Argument::I32(v) => value == Value::Integer(v as i64),
        Argument::U8(v) => value == Value::Integer(v as i64),
        Argument::U16(v) => value == Value::Integer(v as i64),
        Argument::U32(v) => value == Value::Integer(v as i64),
        Argument::I64(v) => value == Value::Integer(v),
        Argument::Real(b) => value == Value::Real(b),
        Argument::Text(s) => value matches Value::Text(t) && t@ == s@,
        Argument::Bytes(b) => value matches Value::Blob(x) && x@ == b@,
    }
}

/// The Rust type an argument decodes back as.
pub open spec fn argument_type(argument: Argument) -> RustType {
    match argument {
        Argument::Bool(_) => RustType::Bool,
        Argument::I8(_) => RustType::I8,
        Argument::I16(_) => RustType::I16,
        Argument::I32(_) => RustType::I32,
        Argument::U8(_) => RustType::U8,
        Argument::U16(_) => RustType::U16,
        Argument::U32(_) => RustType::U32,
        Argument::I64(_) => RustType::I64,
        Argument::Real(_) => RustType::F64,
        Argument::Text(_) => RustType::Str,
        _ => RustType::Bytes,
    }
}

/// `decoded` is the value `argument` held.
pub open spec fn decoded_is_argument(decoded: Decoded, argument: Argument) -> bool {
    match argument {
        Argument::Bool(b) => decoded == Decoded::Bool(b),
        Argument::I8(v) => decoded == Decoded::Integer(v as i64),
        Argument::I16(v) => decoded == Decoded::Integer(v as i64),
        Argument::I32(v) => decoded == Decoded::Integer(v as i64),
        Argument::U8(v) => decoded == Decoded::Integer(v as i64),
        Argument::U16(v) => decoded == Decoded::Integer(v as i64),
        Argument::U32(v) => decoded == Decoded::Integer(v as i64),
        Argument::I64(v) => decoded == Decoded::Integer(v),
        Argument::Real(b) => decoded == Decoded::Real(b),
        Argument::Text(s) => decoded matches Decoded::Text(t) && t@ == s@,
        Argument::Bytes(b) => decoded matches Decoded::Bytes(x) && x@ == b@,
        Argument::Null => false,
    }
}

impl RustType {
    /// The storage class the type is declared as: what `Type::type_info`
    /// reports.
    pub fn type_info(&self) -> (r: TypeInfo)
        ensures
            r == declared_type(*self),
    {
        match self {
            RustType::F32 | RustType::F64 => TypeInfo::Real,
            RustType::Str => TypeInfo::Text,
            RustType::Bytes => TypeInfo::Blob,
            _ => TypeInfo::Integer,
        }
    }

    /// Whether a value of storage class `ty` decodes as this type.
    pub fn compatible(&self, ty: TypeInfo) -> (r: bool)
        ensures
            r == is_compatible(*self, ty),
    {
        match self {
            RustType::F32 | RustType::F64 => match ty {
                TypeInfo::Real | TypeInfo::Integer => true,
                _ => false,
            },
            RustType::Bytes => match ty {
                TypeInfo::Blob | TypeInfo::Text => true,
                _ => false,
            },
            _ => {
                let declared = self.type_info();
                ty == declared
            },
        }
    }
}

/// An integer as a narrower Rust type: `try_from`.
fn narrow(value: i64, target: RustType) -> (r: Result<i64, ValueError>)
    requires
        is_narrow_integer(target),
    ensures
        (narrow_min(target) <= value <= narrow_max(target)) ==> r == Ok::<i64, ValueError>(value),
        !(narrow_min(target) <= value <= narrow_max(target)) ==> r == Err::<i64, ValueError>(
            ValueError::OutOfRange { value, target },
        ),
{
    let (min, max): (i64, i64) = match target {
        RustType::I8 => (-0x80, 0x7f),
        RustType::I16 => (-0x8000, 0x7fff),
        RustType::I32 => (-0x8000_0000, 0x7fff_ffff),
        RustType::U8 => (0, 0xff),
        RustType::U16 => (0, 0xffff),
        _ => (0, 0xffff_ffff),
    };
    if min <= value && value <= max {
        Ok(value)
    } else {
        Err(ValueError::OutOfRange { value, target })
    }
}

/// `value` decoded as `target`: what each type's `Decode` does.
///
/// `bool` is any non-zero `INTEGER`; the narrow integers are the `INTEGER`
/// when it fits; `i64` is the `INTEGER` as it is; the floats are a `REAL` or
/// an `INTEGER` as a number; strings are `TEXT`; bytes are a `BLOB` or `TEXT`
/// as its UTF-8 bytes. `NULL` decodes as none of them -- only as an `Option`.
pub fn decode(value: &Value, target: RustType) -> (r: Result<Decoded, ValueError>)
    ensures
        match decode_error(*value, target) {
            Some(e) => r == Err::<Decoded, ValueError>(e),
            None => r matches Ok(d) && decodes_as(*value, target, d),
        },
{
    match target {
        RustType::Bool => {
            let i = value.integer()?;
            Ok(Decoded::Bool(i != 0))
        },
        RustType::I64 => Ok(Decoded::Integer(value.integer()?)),
        RustType::F32 | RustType::F64 => Ok(Decoded::Real(value.real_bits()?)),
        RustType::Str => {
            let text = value.text()?;
            Ok(Decoded::Text(String::from_str(text)))
        },
        RustType::Bytes => {
            let bytes = value.blob()?;
            Ok(Decoded::Bytes(slice_to_vec(bytes)))
        },
        _ => {
            let i = value.integer()?;
            Ok(Decoded::Integer(narrow(i, target)?))
        },
    }
}

/// The value `argument` binds: what each type's `Encode` pushes.
///
/// `bool` is stored as 0 or 1 and the narrow integers widened, exactly; an
/// `i64` only within ±(2^53 − 1), so a wider one is an error rather than a
/// number rounded on the way in.
pub fn encode(argument: Argument) -> (r: Result<Value, ValueError>)
    ensures
        match encode_error(argument) {
            Some(e) => r == Err::<Value, ValueError>(e),
            None => r matches Ok(v) && encodes_as(argument, v),
        },
{
    match argument {
        Argument::Null => Ok(Value::Null),
        Argument::Bool(b) => Ok(Value::Integer(if b { 1 } else { 0 })),
        Argument::I8(v) => Ok(Value::Integer(v as i64)),
        Argument::I16(v) => Ok(Value::Integer(v as i64)),
        Argument::I32(v) => Ok(Value::Integer(v as i64)),
        Argument::U8(v) => Ok(Value::Integer(v as i64)),
        Argument::U16(v) => Ok(Value::Integer(v as i64)),
        Argument::U32(v) => Ok(Value::Integer(v as i64)),
        Argument::I64(v) => Ok(Value::Integer(safe_integer(v)?)),
        Argument::Real(b) => Ok(Value::Real(b)),
        Argument::Text(s) => Ok(Value::Text(s)),
        Argument::Bytes(b) => Ok(Value::Blob(b)),
    }
}

/// A type decodes a value without a mismatch exactly when it is compatible
/// with the value's storage class -- so checking `compatible` first, as a
/// checked read does, refuses exactly what decoding would. `NULL` is
/// compatible with none of them.
pub proof fn lemma_decode_agrees_with_compatible(value: Value, target: RustType)
    ensures
        (decode_error(value, target) matches Some(ValueError::Mismatch { .. })) <==> !is_compatible(
            target,
            value_type(value),
        ),
        value is Null ==> !is_compatible(target, value_type(value)),
{
}

/// Every value a Rust type binds decodes back as that type to the value it
/// was: a write, read back, gives what was written.
pub proof fn lemma_encode_then_decode(argument: Argument, value: Value, decoded: Decoded)
    requires
        !(argument is Null),
        encode_error(argument) is None,
        encodes_as(argument, value),
        decodes_as(value, argument_type(argument), decoded),
    ensures
        decode_error(value, argument_type(argument)) is None,
        decoded_is_argument(decoded, argument),
{
}

/// An `INTEGER` decodes as a narrow integer type exactly when the type can
/// hold it -- between that type's own `MIN` and `MAX` -- and is otherwise
/// refused as out of range: `try_from` is what decides.
pub proof fn lemma_narrow_decode_fits_the_type(i: i64)
    ensures
        decode_error(Value::Integer(i), RustType::I8) is None <==> i8::MIN <= i <= i8::MAX,
        decode_error(Value::Integer(i), RustType::I16) is None <==> i16::MIN <= i <= i16::MAX,
        decode_error(Value::Integer(i), RustType::I32) is None <==> i32::MIN <= i <= i32::MAX,
        decode_error(Value::Integer(i), RustType::U8) is None <==> u8::MIN <= i <= u8::MAX,
        decode_error(Value::Integer(i), RustType::U16) is None <==> u16::MIN <= i <= u16::MAX,
        decode_error(Value::Integer(i), RustType::U32) is None <==> u32::MIN <= i <= u32::MAX,
        forall|target: RustType|
            is_narrow_integer(target) && !(decode_error(Value::Integer(i), target) is None)
                ==> decode_error(Value::Integer(i), target) == Some(
                ValueError::OutOfRange { value: i, target },
            ),
{
}

/// The storage class a Rust type is declared as is the one its values are
/// stored as, and one it decodes from; `f32` is declared as `f64` is --
/// both `REAL` -- since an `f32` is stored widened to one.
pub proof fn lemma_declared_type_is_the_stored_type(argument: Argument, value: Value)
    ensures
        !(argument is Null) && encode_error(argument) is None && encodes_as(argument, value)
            ==> value_type(value) == declared_type(argument_type(argument)),
        forall|target: RustType| is_compatible(target, #[trigger] declared_type(target)),
        declared_type(RustType::F32) == declared_type(RustType::F64),
        forall|bits: u64|
            encodes_as(Argument::Real(bits), value) ==> value_type(value) == declared_type(
                RustType::F32,
            ),
{
}

} // verus!
