use auth_core::errors::ConfigError;
use auth_core::group::{DocPosition, UserDynamicSource, UserGroupConfig};
use auth_core::value::ConfigValue;

fn text(s: &str) -> ConfigValue {
    ConfigValue::Text(s.to_string())
}

fn entry(k: &str, v: ConfigValue) -> (String, ConfigValue) {
    (k.to_string(), v)
}

fn user_record(name: &str) -> ConfigValue {
    ConfigValue::Mapping(vec![entry("name", text(name))])
}

#[test]
fn missing_name_rejected() {
    let mut cfg = UserGroupConfig::new(None);
    let r = cfg.parse(&vec![]);
    assert!(matches!(r, Err(ConfigError::MissingName)));
}

#[test]
fn empty_name_rejected() {
    let mut cfg = UserGroupConfig::new(None);
    let r = cfg.parse(&vec![entry("name", text(""))]);
    assert!(matches!(r, Err(ConfigError::MissingName)));
}

#[test]
fn duplicate_static_user_named() {
    let mut cfg = UserGroupConfig::new(None);
    let map = vec![
        entry("name", text("g1")),
        entry(
            "static_users",
            ConfigValue::Sequence(vec![user_record("alice"), user_record("alice")]),
        ),
    ];
    match cfg.parse(&map) {
        Err(ConfigError::DuplicateUser(n)) => assert_eq!(n, "alice"),
        r => panic!("expected a duplicate-user error, got {:?}", r.is_ok()),
    }
}

#[test]
fn unknown_key_rejected() {
    let mut cfg = UserGroupConfig::new(None);
    let map = vec![entry("name", text("g1")), entry("nonsense", text("x"))];
    match cfg.parse(&map) {
        Err(ConfigError::UnknownKey(k)) => assert_eq!(k, "nonsense"),
        _ => panic!("expected an unknown-key error"),
    }
}

#[test]
fn zero_interval_rejected() {
    let mut cfg = UserGroupConfig::new(None);
    let map = vec![entry("name", text("g1")), entry("refresh_interval", text("0"))];
    assert!(matches!(cfg.parse(&map), Err(ConfigError::NonPositiveInterval)));
}

#[test]
fn zero_seconds_interval_rejected() {
    let mut cfg = UserGroupConfig::new(None);
    let map = vec![entry("name", text("g1")), entry("refresh_interval", text("0s"))];
    assert!(matches!(cfg.parse(&map), Err(ConfigError::NonPositiveInterval)));
}

#[test]
fn negative_interval_rejected() {
    let mut cfg = UserGroupConfig::new(None);
    let map = vec![entry("name", text("g1")), entry("refresh_interval", ConfigValue::Integer(-5))];
    assert!(matches!(cfg.parse(&map), Err(ConfigError::NonPositiveInterval)));
}

#[test]
fn interval_text_parsed() {
    let mut cfg = UserGroupConfig::new(None);
    let map = vec![entry("name", text("g1")), entry("refresh_interval", text("1h 30m"))];
    cfg.parse(&map).unwrap();
    assert_eq!(cfg.refresh_interval, 5_400_000_000_000u128);
}

#[test]
fn interval_seconds_parsed_and_default() {
    let mut cfg = UserGroupConfig::new(None);
    let map = vec![entry("name", text("g1"))];
    cfg.parse(&map).unwrap();
    assert_eq!(cfg.refresh_interval, 60_000_000_000u128);

    let mut cfg = UserGroupConfig::new(None);
    let map = vec![entry("name", text("g1")), entry("refresh_interval", ConfigValue::Integer(30))];
    cfg.parse(&map).unwrap();
    assert_eq!(cfg.refresh_interval, 30_000_000_000u128);
}

#[test]
fn relative_source_path_resolved() {
    let pos = DocPosition { path: "/etc/proxy/groups.yaml".to_string(), index: 0 };
    let mut cfg = UserGroupConfig::new(Some(pos));
    let map = vec![
        entry("name", text("g1")),
        entry(
            "source",
            ConfigValue::Mapping(vec![entry("type", text("file")), entry("path", text("users.json"))]),
        ),
    ];
    cfg.parse(&map).unwrap();
    match &cfg.dynamic_source {
        Some(UserDynamicSource::File { path }) => assert_eq!(path, "/etc/proxy/users.json"),
        _ => panic!("expected a file source"),
    }
}

#[test]
fn absolute_source_path_kept() {
    let pos = DocPosition { path: "/etc/proxy/groups.yaml".to_string(), index: 0 };
    let mut cfg = UserGroupConfig::new(Some(pos));
    let map = vec![
        entry("name", text("g1")),
        entry(
            "source",
            ConfigValue::Mapping(vec![entry("type", text("file")), entry("path", text("/srv/u.json"))]),
        ),
    ];
    cfg.parse(&map).unwrap();
    match &cfg.dynamic_source {
        Some(UserDynamicSource::File { path }) => assert_eq!(path, "/srv/u.json"),
        _ => panic!("expected a file source"),
    }
}

#[test]
fn http_source_needs_url() {
    let mut cfg = UserGroupConfig::new(None);
    let map = vec![
        entry("name", text("g1")),
        entry("source", ConfigValue::Mapping(vec![entry("type", text("http"))])),
    ];
    match cfg.parse(&map) {
        Err(ConfigError::MissingKey(k)) => assert_eq!(k, "url"),
        _ => panic!("expected a missing-key error"),
    }
}

#[test]
fn source_needs_type() {
    let mut cfg = UserGroupConfig::new(None);
    let map = vec![
        entry("name", text("g1")),
        entry("source", ConfigValue::Mapping(vec![entry("url", text("http://x/u"))])),
    ];
    match cfg.parse(&map) {
        Err(ConfigError::MissingKey(k)) => assert_eq!(k, "type"),
        _ => panic!("expected a missing-key error"),
    }
}

#[test]
fn user_expire_parsed() {
    let mut cfg = UserGroupConfig::new(None);
    let rec = ConfigValue::Mapping(vec![
        entry("name", text("alice")),
        entry("token", text("s3cr3t")),
        entry("expire", text("2019-05-23T17:38:00Z")),
    ]);
    let map = vec![entry("name", text("g1")), entry("static_users", ConfigValue::Sequence(vec![rec]))];
    cfg.parse(&map).unwrap();
    let u = cfg.static_users.get("alice").unwrap();
    assert_eq!(u.token, "s3cr3t");
    let e = u.expire.unwrap();
    assert_eq!(e.to_rfc3339().unwrap(), "2019-05-23T17:38:00+00:00");
}

#[test]
fn user_bad_expire_rejected() {
    let mut cfg = UserGroupConfig::new(None);
    let rec = ConfigValue::Mapping(vec![
        entry("name", text("alice")),
        entry("expire", text("2019-05-23 17:38:00")),
    ]);
    let map = vec![entry("name", text("g1")), entry("static_users", ConfigValue::Sequence(vec![rec]))];
    match cfg.parse(&map) {
        Err(ConfigError::InvalidDatetime(k)) => assert_eq!(k, "expire"),
        _ => panic!("expected an invalid-datetime error"),
    }
}

#[test]
fn user_numeric_expire_rejected() {
    let mut cfg = UserGroupConfig::new(None);
    let rec = ConfigValue::Mapping(vec![
        entry("name", text("alice")),
        entry("expire", ConfigValue::Integer(1558633080)),
    ]);
    let map = vec![entry("name", text("g1")), entry("static_users", ConfigValue::Sequence(vec![rec]))];
    match cfg.parse(&map) {
        Err(ConfigError::InvalidDatetime(k)) => assert_eq!(k, "expire"),
        _ => panic!("expected an invalid-datetime error"),
    }
}

#[test]
fn empty_group_has_defaults() {
    let cfg = UserGroupConfig::empty("fallback");
    assert_eq!(cfg.name(), "fallback");
    assert!(cfg.position().is_none());
    assert_eq!(cfg.static_users.len(), 0);
    assert!(cfg.dynamic_source.is_none());
    assert_eq!(cfg.refresh_interval, 60_000_000_000u128);
}

#[test]
fn wrong_shape_values_rejected() {
    let mut cfg = UserGroupConfig::new(None);
    let map = vec![entry("name", ConfigValue::Integer(7))];
    match cfg.parse(&map) {
        Err(ConfigError::InvalidValue(k)) => assert_eq!(k, "name"),
        _ => panic!("expected an invalid-value error"),
    }

    let mut cfg = UserGroupConfig::new(None);
    let map = vec![entry("name", text("g1")), entry("static_users", text("oops"))];
    match cfg.parse(&map) {
        Err(ConfigError::InvalidValue(k)) => assert_eq!(k, "static_users"),
        _ => panic!("expected an invalid-value error"),
    }
}
