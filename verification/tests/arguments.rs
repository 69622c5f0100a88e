use sqlx_cloudflare::arguments::{add_argument, DoArguments, IsNull};
use sqlx_cloudflare::types::Argument;
use sqlx_cloudflare::value::{Value, ValueError};

#[test]
fn values_line_up_with_placeholders() {
    let mut arguments = DoArguments::default();

    arguments.add(Argument::I64(7)).unwrap();
    arguments.add(Argument::Null).unwrap();
    arguments.add(Argument::Text("x".into())).unwrap();
    arguments.add(Argument::Bool(true)).unwrap();
    arguments.add(Argument::Real(1.5_f64.to_bits())).unwrap();
    arguments.add(Argument::Bytes(vec![1_u8, 2])).unwrap();

    assert_eq!(
        arguments.values(),
        [
            Value::Integer(7),
            Value::Null,
            Value::Text("x".into()),
            Value::Integer(1),
            Value::Real(1.5_f64.to_bits()),
            Value::Blob(vec![1, 2]),
        ]
    );
}

#[test]
fn an_integer_beyond_2_53_is_refused_and_leaves_no_trace() {
    let mut arguments = DoArguments::default();

    arguments.add(Argument::I64(1)).unwrap();
    assert!(arguments.add(Argument::I64(1_i64 << 53)).is_err());
    assert!(arguments.add(Argument::I64(i64::MIN)).is_err());
    arguments.add(Argument::I64(2)).unwrap();

    // The failed binds pushed nothing, so `?2` is still the second value.
    assert_eq!(arguments.values(), [Value::Integer(1), Value::Integer(2)]);
    assert_eq!(arguments.len(), 2);
}

#[test]
fn an_encoder_that_says_null_leaves_exactly_one_null() {
    let mut values = vec![Value::Integer(1)];
    let len = values.len();
    // An encoder that pushed two values and then reported NULL.
    values.push(Value::Integer(2));
    values.push(Value::Integer(3));
    assert_eq!(add_argument::<ValueError>(&mut values, len, Ok(IsNull::Yes)), Ok(()));
    assert_eq!(values, [Value::Integer(1), Value::Null]);
}

#[test]
fn a_failed_encoder_leaves_the_values_as_they_were() {
    let mut values = vec![Value::Integer(1)];
    let len = values.len();
    values.push(Value::Integer(2));
    let error = ValueError::UnsafeInteger { value: i64::MAX };
    assert_eq!(add_argument(&mut values, len, Err(error.clone())), Err(error));
    assert_eq!(values, [Value::Integer(1)]);
}

#[test]
fn an_encoder_that_pushed_its_value_keeps_it() {
    let mut values = Vec::new();
    values.push(Value::Text("a".into()));
    assert_eq!(add_argument::<ValueError>(&mut values, 0, Ok(IsNull::No)), Ok(()));
    assert_eq!(values, [Value::Text("a".into())]);
}

#[test]
fn reserving_room_binds_nothing() {
    let mut arguments = DoArguments::new();
    arguments.reserve(8);
    assert_eq!(arguments.len(), 0);
    arguments.values_mut().push(Value::Null);
    assert_eq!(arguments.values(), [Value::Null]);
}

#[test]
fn an_encoder_that_removed_values_still_leaves_one_null() {
    let mut values = vec![Value::Integer(1), Value::Integer(2)];
    let len = values.len();
    // An encoder that popped a value it did not push, then reported NULL.
    values.pop();
    assert_eq!(add_argument::<ValueError>(&mut values, len, Ok(IsNull::Yes)), Ok(()));
    assert_eq!(values, [Value::Integer(1), Value::Null]);
}

#[test]
fn an_encoder_that_pushed_two_values_lands_only_the_first() {
    let mut values = vec![Value::Integer(1)];
    let len = values.len();
    values.push(Value::Integer(2));
    values.push(Value::Integer(3));
    assert_eq!(add_argument::<ValueError>(&mut values, len, Ok(IsNull::No)), Ok(()));
    assert_eq!(values, [Value::Integer(1), Value::Integer(2)]);
}

#[test]
fn an_encoder_that_pushed_nothing_lands_a_null() {
    let mut values = vec![Value::Integer(1)];
    let len = values.len();
    assert_eq!(add_argument::<ValueError>(&mut values, len, Ok(IsNull::No)), Ok(()));
    assert_eq!(values, [Value::Integer(1), Value::Null]);
}
