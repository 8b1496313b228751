use feature_watch::format::as_str;
use feature_watch::model::{Failure, Value};

#[test]
fn text_is_trimmed() {
    assert_eq!(as_str(&Value::Text("  5 rue B \n".to_string())), Ok("5 rue B".to_string()));
    assert_eq!(as_str(&Value::Text("plain".to_string())), Ok("plain".to_string()));
}

#[test]
fn blank_text_formats_as_empty() {
    assert_eq!(as_str(&Value::Text(String::new())), Ok(String::new()));
    assert_eq!(as_str(&Value::Text("  \t ".to_string())), Ok(String::new()));
}

#[test]
fn integers_format_as_decimal_numerals() {
    assert_eq!(as_str(&Value::Sint(-42)), Ok("-42".to_string()));
    assert_eq!(as_str(&Value::Sint(i32::MIN)), Ok("-2147483648".to_string()));
    assert_eq!(as_str(&Value::Uint(7)), Ok("7".to_string()));
    assert_eq!(as_str(&Value::Uint(u32::MAX)), Ok("4294967295".to_string()));
    assert_eq!(as_str(&Value::Int64(i64::MIN)), Ok("-9223372036854775808".to_string()));
    assert_eq!(as_str(&Value::Uint64(u64::MAX)), Ok("18446744073709551615".to_string()));
    assert_eq!(as_str(&Value::Sint64(0)), Ok("0".to_string()));
    assert_eq!(as_str(&Value::Sint64(-15)), Ok("-15".to_string()));
}

#[test]
fn booleans_format_as_words() {
    assert_eq!(as_str(&Value::Bool(true)), Ok("true".to_string()));
    assert_eq!(as_str(&Value::Bool(false)), Ok("false".to_string()));
}

#[test]
fn floats_keep_their_decimal_text() {
    assert_eq!(as_str(&Value::Float(1.5f32.to_string())), Ok("1.5".to_string()));
    assert_eq!(as_str(&Value::Double((-0.25f64).to_string())), Ok("-0.25".to_string()));
    assert_eq!(as_str(&Value::Double(45.188529f64.to_string())), Ok("45.188529".to_string()));
    assert_eq!(as_str(&Value::Float(3f32.to_string())), Ok("3".to_string()));
}

#[test]
fn unset_value_is_malformed() {
    assert_eq!(as_str(&Value::Unset), Err(Failure::MalformedValue));
}

#[test]
fn unset_value_never_formats_as_text() {
    let result = as_str(&Value::Unset);
    assert!(result.is_err());
    assert_ne!(result, Ok(String::new()));
}

#[test]
fn failure_messages() {
    assert_eq!(Failure::NoQueryResult.message(), "no query result");
    assert_eq!(Failure::AddressColumnMissing.message(), "no CodeAddress found");
    assert_eq!(Failure::FeatureNotFound.message(), "no feature found for requested addr");
    let all = [
        Failure::ConfigError,
        Failure::FetchError,
        Failure::DecodeError,
        Failure::NoQueryResult,
        Failure::AddressColumnMissing,
        Failure::FeatureNotFound,
        Failure::MalformedValue,
        Failure::PersistenceError,
        Failure::NotifyError,
    ];
    for (i, a) in all.iter().enumerate() {
        assert!(!a.message().is_empty());
        for b in &all[i + 1..] {
            assert_ne!(a.message(), b.message());
        }
    }
}
