use sqlx_cloudflare::arguments::DoArguments;
use sqlx_cloudflare::error::{ColumnRef, Error};
use sqlx_cloudflare::row::DoRow;
use sqlx_cloudflare::types::{decode, encode, Argument, Decoded, RustType};
use sqlx_cloudflare::value::{TypeInfo, Value, ValueError};

fn get(data: Value, target: RustType) -> Result<Decoded, Error> {
    let rows = DoRow::from_result(vec!["v".into()], vec![vec![data]]).unwrap();
    rows[0].try_get(&ColumnRef::Name("v".into()), target)
}

fn get_optional(data: Value, target: RustType) -> Result<Option<Decoded>, Error> {
    let rows = DoRow::from_result(vec!["v".into()], vec![vec![data]]).unwrap();
    rows[0].try_get_optional(&ColumnRef::Name("v".into()), target)
}

fn real_of(decoded: Decoded) -> f64 {
    match decoded {
        Decoded::Real(bits) => f64::from_bits(bits),
        other => panic!("not a number: {other:?}"),
    }
}

fn encoded(argument: Argument) -> Value {
    let mut arguments = DoArguments::new();
    arguments.add(argument).unwrap();
    arguments.values()[0].clone()
}

#[test]
fn a_narrow_integer_that_does_not_fit_is_an_error() {
    assert_eq!(get(Value::Integer(5), RustType::I32).unwrap(), Decoded::Integer(5));
    assert!(get(Value::Integer(300), RustType::I8).is_err());
    assert!(get(Value::Integer(256), RustType::U8).is_err());
    assert!(get(Value::Integer(-1), RustType::U32).is_err());
    assert_eq!(
        get(Value::Integer(4_294_967_295), RustType::U32).unwrap(),
        Decoded::Integer(i64::from(u32::MAX))
    );
}

#[test]
fn any_non_zero_integer_is_true() {
    assert_eq!(get(Value::Integer(0), RustType::Bool).unwrap(), Decoded::Bool(false));
    assert_eq!(get(Value::Integer(1), RustType::Bool).unwrap(), Decoded::Bool(true));
    assert_eq!(get(Value::Integer(2), RustType::Bool).unwrap(), Decoded::Bool(true));
    assert_eq!(get(Value::Integer(-1), RustType::Bool).unwrap(), Decoded::Bool(true));
    assert!(get(Value::Text("true".into()), RustType::Bool).is_err());
}

#[test]
fn floats_decode_from_integers_too() {
    #[allow(clippy::cast_possible_truncation)]
    let narrowed = real_of(get(Value::Integer(3), RustType::F32).unwrap()) as f32;
    assert!((narrowed - 3.0).abs() < f32::EPSILON);
    assert!((real_of(get(Value::Real(0.25_f64.to_bits()), RustType::F64).unwrap()) - 0.25).abs() < f64::EPSILON);
    assert!(get(Value::Text("1.5".into()), RustType::F64).is_err());
}

#[test]
fn bytes_decode_from_text_but_text_not_from_bytes() {
    assert_eq!(get(Value::Text("ab".into()), RustType::Bytes).unwrap(), Decoded::Bytes(b"ab".to_vec()));
    assert_eq!(get(Value::Blob(vec![0, 255]), RustType::Bytes).unwrap(), Decoded::Bytes(vec![0, 255]));
    assert!(get(Value::Blob(b"ab".to_vec()), RustType::Str).is_err());
}

#[test]
fn nothing_converts_between_numbers_and_text() {
    assert!(get(Value::Integer(1), RustType::Str).is_err());
    assert!(get(Value::Text("1".into()), RustType::I64).is_err());
    assert!(get(Value::Real(1.5_f64.to_bits()), RustType::I64).is_err());
}

#[test]
fn null_decodes_only_into_an_option() {
    assert_eq!(get_optional(Value::Null, RustType::Str).unwrap(), None);
    assert!(get(Value::Null, RustType::Str).is_err());
    assert!(get(Value::Null, RustType::I64).is_err());
}

#[test]
fn every_text_and_byte_container_encodes_the_same() {
    let text = Value::Text("x".into());
    assert_eq!(encoded(Argument::Text("x".to_owned())), text);
    assert_eq!(encoded(Argument::Text(String::from("x"))), text);
    assert_eq!(encoded(Argument::Text(String::from(Box::<str>::from("x")))), text);
    assert_eq!(encoded(Argument::Text(std::sync::Arc::<str>::from("x").to_string())), text);
    assert_eq!(encoded(Argument::Text(std::borrow::Cow::Borrowed("x").into_owned())), text);

    let blob = Value::Blob(vec![1, 2]);
    assert_eq!(encoded(Argument::Bytes([1_u8, 2][..].to_vec())), blob);
    assert_eq!(encoded(Argument::Bytes(vec![1_u8, 2])), blob);
    assert_eq!(encoded(Argument::Bytes(Box::<[u8]>::from([1_u8, 2]).into_vec())), blob);
    assert_eq!(encoded(Argument::Bytes(std::sync::Arc::<[u8]>::from([1_u8, 2]).to_vec())), blob);
}

#[test]
fn narrow_numbers_encode_widened() {
    assert_eq!(encoded(Argument::I8(-7)), Value::Integer(-7));
    assert_eq!(encoded(Argument::U32(u32::MAX)), Value::Integer(4_294_967_295));
    assert_eq!(encoded(Argument::Bool(false)), Value::Integer(0));
    assert_eq!(encoded(Argument::Real(f64::from(0.5_f32).to_bits())), Value::Real(0.5_f64.to_bits()));
}

#[test]
fn a_narrow_integer_out_of_range_says_so() {
    assert_eq!(
        decode(&Value::Integer(300), RustType::I8),
        Err(ValueError::OutOfRange { value: 300, target: RustType::I8 })
    );
    assert_eq!(decode(&Value::Integer(-32768), RustType::I16), Ok(Decoded::Integer(-32768)));
    assert_eq!(
        decode(&Value::Integer(65536), RustType::U16),
        Err(ValueError::OutOfRange { value: 65536, target: RustType::U16 })
    );
}

#[test]
fn a_written_value_reads_back_as_itself() {
    for (argument, target, expected) in [
        (Argument::Bool(true), RustType::Bool, Decoded::Bool(true)),
        (Argument::I8(-5), RustType::I8, Decoded::Integer(-5)),
        (Argument::U16(65535), RustType::U16, Decoded::Integer(65535)),
        (Argument::I64(-9_007_199_254_740_991), RustType::I64, Decoded::Integer(-9_007_199_254_740_991)),
        (Argument::Real(2.5_f64.to_bits()), RustType::F64, Decoded::Real(2.5_f64.to_bits())),
        (Argument::Text("é".into()), RustType::Str, Decoded::Text("é".into())),
        (Argument::Bytes(vec![9, 8]), RustType::Bytes, Decoded::Bytes(vec![9, 8])),
    ] {
        let value = encode(argument).unwrap();
        assert_eq!(decode(&value, target), Ok(expected));
    }
}

#[test]
fn text_decodes_as_its_utf8_bytes() {
    assert_eq!(
        decode(&Value::Text("é".into()), RustType::Bytes),
        Ok(Decoded::Bytes(vec![0xc3, 0xa9]))
    );
}

#[test]
fn types_are_compatible_with_what_they_decode_from() {
    assert_eq!(RustType::F32.type_info(), TypeInfo::Real);
    assert_eq!(RustType::Bytes.type_info(), TypeInfo::Blob);
    assert_eq!(RustType::Bool.type_info(), TypeInfo::Integer);
    assert!(RustType::F64.compatible(TypeInfo::Integer));
    assert!(RustType::Bytes.compatible(TypeInfo::Text));
    assert!(!RustType::Str.compatible(TypeInfo::Blob));
    assert!(!RustType::I64.compatible(TypeInfo::Null));
}
