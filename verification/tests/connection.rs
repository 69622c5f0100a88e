use sqlx_cloudflare::connection::{D1ConnectOptions, DoConnectOptions, DoValue};
use sqlx_cloudflare::error::{ConfigError, Error};
use sqlx_cloudflare::value::{TypeInfo, Value};

#[test]
fn parses_a_do_url() {
    let options = DoConnectOptions::from_str("do://").unwrap();
    assert_eq!(options.url(), "do://");
}

#[test]
fn rejects_other_schemes() {
    assert!(DoConnectOptions::from_str("sqlite://db").is_err());
    assert!(DoConnectOptions::from_str("d1://DB").is_err());
}

#[test]
fn parses_a_binding_url() {
    let options = D1ConnectOptions::from_str("d1://DB").unwrap();

    // A URL parser lowercases a special scheme's host but leaves an unknown
    // scheme's alone, so a binding keeps its case.
    assert_eq!(options.binding(), "DB");
    assert_eq!(options.url(), "d1://DB");
}

#[test]
fn rejects_other_schemes_and_a_missing_binding() {
    assert!(D1ConnectOptions::from_str("sqlite://DB").is_err());
    assert!(D1ConnectOptions::from_str("d1://").is_err());
}

#[test]
fn a_wrong_scheme_names_both() {
    assert_eq!(
        D1ConnectOptions::from_str("sqlite://DB"),
        Err(Error::Configuration(ConfigError::WrongScheme {
            expected: "d1".into(),
            found: "sqlite".into(),
        }))
    );
    assert_eq!(
        DoConnectOptions::from_str("d1://DB"),
        Err(Error::Configuration(ConfigError::WrongScheme {
            expected: "do".into(),
            found: "d1".into(),
        }))
    );
    assert_eq!(
        D1ConnectOptions::from_str("d1://"),
        Err(Error::Configuration(ConfigError::MissingBinding))
    );
}

#[test]
fn text_that_is_no_url_is_refused_as_such() {
    assert!(matches!(
        D1ConnectOptions::from_str("not a url"),
        Err(Error::Configuration(ConfigError::InvalidUrl(_)))
    ));
    assert!(matches!(
        DoConnectOptions::from_str(""),
        Err(Error::Configuration(ConfigError::InvalidUrl(_)))
    ));
}

#[test]
fn options_are_read_from_the_scheme_and_host() {
    assert_eq!(D1ConnectOptions::from_url("d1", Some("DB")).unwrap().binding(), "DB");
    assert_eq!(
        D1ConnectOptions::from_url("d1", Some("")),
        Err(Error::Configuration(ConfigError::MissingBinding))
    );
    assert_eq!(
        D1ConnectOptions::from_url("d1", None),
        Err(Error::Configuration(ConfigError::MissingBinding))
    );
    assert!(DoConnectOptions::from_url("do").is_ok());
    assert!(DoConnectOptions::from_url("DO").is_err());
}

#[test]
fn no_connection_opens_from_options() {
    let d1 = D1ConnectOptions::from_str("d1://DB").unwrap();
    assert_eq!(
        d1.connect(),
        Error::Configuration(ConfigError::NotFromUrl { binding: Some("DB".into()) })
    );
    let durable = DoConnectOptions::from_str("do://").unwrap();
    assert_eq!(durable.connect(), Error::Configuration(ConfigError::NotFromUrl { binding: None }));
}

#[test]
fn a_value_reference_copies_what_it_points_at() {
    let value = DoValue(Value::Blob(vec![1, 2, 3]));
    let reference = value.as_ref();
    assert_eq!(reference.to_owned(), value);
    assert_eq!(reference.type_info(), TypeInfo::Blob);
    assert!(!reference.is_null());
    assert_eq!(reference.as_value(), &Value::Blob(vec![1, 2, 3]));
    assert!(DoValue(Value::Null).is_null());
    assert_eq!(DoValue(Value::Text("t".into())).type_info(), TypeInfo::Text);
}
