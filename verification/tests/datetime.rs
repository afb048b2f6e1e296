use auth_core::datetime::as_rfc3339_datetime;
use auth_core::errors::DatetimeError;
use auth_core::value::ConfigValue;

#[test]
fn utc_tz() {
    let value = ConfigValue::Text("2019-05-23T17:38:00Z".to_string());
    let dt = as_rfc3339_datetime(&value).unwrap();
    assert_eq!(dt.to_rfc3339().unwrap(), "2019-05-23T17:38:00+00:00");
}

#[test]
fn t_error() {
    let value = ConfigValue::Text("2019-05-23 17:38:00".to_string());
    assert!(as_rfc3339_datetime(&value).is_err());

    let value = ConfigValue::Other;
    assert!(as_rfc3339_datetime(&value).is_err());
}

#[test]
fn error_kinds() {
    let value = ConfigValue::Text("2019-05-23 17:38:00".to_string());
    assert_eq!(as_rfc3339_datetime(&value), Err(DatetimeError::InvalidFormat));

    let value = ConfigValue::Integer(1);
    assert_eq!(as_rfc3339_datetime(&value), Err(DatetimeError::NotText));

    let value = ConfigValue::Binary(vec![0xff, 0xfe]);
    assert_eq!(as_rfc3339_datetime(&value), Err(DatetimeError::InvalidUtf8));
}

#[test]
fn offset_is_normalized_to_utc() {
    let value = ConfigValue::Text("2019-05-23T17:38:00+02:00".to_string());
    let dt = as_rfc3339_datetime(&value).unwrap();
    assert_eq!(dt.to_rfc3339().unwrap(), "2019-05-23T15:38:00+00:00");
}

#[test]
fn instant_ordering() {
    let value = ConfigValue::Text("2019-05-23T17:38:00Z".to_string());
    let early = as_rfc3339_datetime(&value).unwrap();
    let value = ConfigValue::Text("2019-05-23T17:38:01Z".to_string());
    let late = as_rfc3339_datetime(&value).unwrap();
    assert!(early.is_before(&late));
    assert!(!late.is_before(&early));
    assert!(!early.is_before(&early));
}
