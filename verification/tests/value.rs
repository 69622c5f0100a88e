use sqlx_cloudflare::number::{
    number_of_integer, number_to_i64, number_to_u64, safe_whole_number, MAX_SAFE_INTEGER,
};
use sqlx_cloudflare::value::{safe_integer, TypeInfo, Value, ValueError};

fn number(value: f64) -> Value {
    Value::from_number(value.to_bits())
}

#[test]
fn value_whole_numbers_in_the_safe_range_are_integers() {
    assert_eq!(number(3.0), Value::Integer(3));
    assert_eq!(number(-0.0), Value::Integer(0));
    assert_eq!(number(9_007_199_254_740_991.0), Value::Integer(MAX_SAFE_INTEGER));
}

#[test]
fn value_everything_else_is_real() {
    assert_eq!(number(1.5), Value::Real(1.5_f64.to_bits()));
    // 2^53: whole, but no longer exact -- 2^53 + 1 would read the same.
    assert_eq!(
        number(9_007_199_254_740_992.0),
        Value::Real(9_007_199_254_740_992.0_f64.to_bits())
    );
    assert!(matches!(number(f64::INFINITY), Value::Real(_)));
    assert!(matches!(number(f64::NAN), Value::Real(_)));
}

#[test]
fn value_safe_integer_accepts_exactly_the_safe_range() {
    assert!(safe_integer(MAX_SAFE_INTEGER).is_ok());
    assert!(safe_integer(-MAX_SAFE_INTEGER).is_ok());
    assert!(safe_integer(MAX_SAFE_INTEGER + 1).is_err());
    assert!(safe_integer(-MAX_SAFE_INTEGER - 1).is_err());
    assert!(safe_integer(i64::MIN).is_err());
}

#[test]
fn accessors_accept_what_their_types_are_compatible_with() {
    assert_eq!(Value::Integer(2).integer().unwrap(), 2);
    assert!(Value::Real(2.0_f64.to_bits()).integer().is_err());
    assert!((f64::from_bits(Value::Integer(2).real_bits().unwrap()) - 2.0).abs() < f64::EPSILON);
    assert_eq!(Value::Text("ab".into()).blob().unwrap(), b"ab");
    assert!(Value::Blob(b"ab".to_vec()).text().is_err());
    assert!(Value::Null.integer().is_err());
}

#[test]
fn a_mismatch_names_both_storage_classes() {
    assert_eq!(
        Value::Null.integer(),
        Err(ValueError::Mismatch { expected: TypeInfo::Integer, found: TypeInfo::Null })
    );
    assert_eq!(
        Value::Integer(1).text(),
        Err(ValueError::Mismatch { expected: TypeInfo::Text, found: TypeInfo::Integer })
    );
    assert_eq!(
        Value::Text("x".into()).real_bits(),
        Err(ValueError::Mismatch { expected: TypeInfo::Real, found: TypeInfo::Text })
    );
    assert_eq!(safe_integer(i64::MAX), Err(ValueError::UnsafeInteger { value: i64::MAX }));
}

#[test]
fn storage_classes_are_named_as_sqlite_names_them() {
    assert_eq!(TypeInfo::Null.name(), "NULL");
    assert_eq!(TypeInfo::Integer.name(), "INTEGER");
    assert_eq!(TypeInfo::Real.name(), "REAL");
    assert_eq!(TypeInfo::Text.name(), "TEXT");
    assert_eq!(TypeInfo::Blob.name(), "BLOB");
    assert!(TypeInfo::Null.is_null());
    assert!(!TypeInfo::Blob.is_null());
    assert_eq!(Value::Blob(vec![1]).type_info(), TypeInfo::Blob);
    assert!(Value::Null.is_null());
}

#[test]
fn an_integer_converts_to_the_nearest_number() {
    for value in [
        0_i64,
        1,
        -1,
        3,
        MAX_SAFE_INTEGER,
        -MAX_SAFE_INTEGER,
        (1 << 53) + 1,
        (1 << 53) + 3,
        (1 << 60) + 12345,
        i64::MAX,
        i64::MIN,
        i64::MIN + 1,
    ] {
        #[allow(clippy::cast_precision_loss)]
        let expected = (value as f64).to_bits();
        assert_eq!(number_of_integer(value), expected, "{value}");
    }
}

#[test]
fn only_safe_whole_numbers_are_integers() {
    assert_eq!(safe_whole_number(42.0_f64.to_bits()), Some(42));
    assert_eq!(safe_whole_number((-42.0_f64).to_bits()), Some(-42));
    assert_eq!(safe_whole_number((-0.0_f64).to_bits()), Some(0));
    assert_eq!(safe_whole_number(0.5_f64.to_bits()), None);
    assert_eq!(safe_whole_number(9_007_199_254_740_992.0_f64.to_bits()), None);
    assert_eq!(safe_whole_number(1e300_f64.to_bits()), None);
    assert_eq!(safe_whole_number(f64::MIN_POSITIVE.to_bits()), None);
    assert_eq!(safe_whole_number(f64::NEG_INFINITY.to_bits()), None);
}

#[test]
fn a_real_that_is_not_whole_reads_back_as_itself() {
    let bits = 0.1_f64.to_bits();
    assert_eq!(Value::from_number(bits), Value::Real(bits));
    // A safe integer's number reads back as the integer.
    let n = 123_456_789_i64;
    assert_eq!(Value::from_number(number_of_integer(n)), Value::Integer(n));
}

#[test]
fn a_number_converts_as_as_converts_it() {
    #[allow(clippy::cast_possible_truncation, clippy::cast_sign_loss)]
    for number in [
        0.0_f64,
        -0.0,
        0.5,
        1.0,
        1.5,
        -1.5,
        2.0,
        7.0,
        1e-310,
        -1e-310,
        123_456.789,
        9_007_199_254_740_993.0,
        4_294_967_296.0,
        9.223_372_036_854_776e18,
        -9.223_372_036_854_776e18,
        1.844_674_407_370_955e19,
        1.9e19,
        1e300,
        -1e300,
        f64::INFINITY,
        f64::NEG_INFINITY,
        f64::NAN,
        f64::MAX,
        f64::MIN_POSITIVE,
    ] {
        assert_eq!(number_to_u64(number.to_bits()), number as u64, "{number}");
        assert_eq!(number_to_i64(number.to_bits()), number as i64, "{number}");
    }
}
