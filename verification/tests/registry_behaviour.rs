use auth_core::errors::{ConfigError, DecodeError, FetchError, LookupError};
use auth_core::feed::decode;
use auth_core::group::UserGroupConfig;
use auth_core::registry::{AuthRegistry, GroupState, UserGroup};
use auth_core::value::ConfigValue;

fn text(s: &str) -> ConfigValue {
    ConfigValue::Text(s.to_string())
}

fn entry(k: &str, v: ConfigValue) -> (String, ConfigValue) {
    (k.to_string(), v)
}

fn user_record(name: &str, token: &str) -> ConfigValue {
    ConfigValue::Mapping(vec![entry("name", text(name)), entry("token", text(token))])
}

fn group_with_source(name: &str, static_users: Vec<ConfigValue>) -> UserGroupConfig {
    let mut cfg = UserGroupConfig::new(None);
    let map = vec![
        entry("name", text(name)),
        entry("static_users", ConfigValue::Sequence(static_users)),
        entry(
            "source",
            ConfigValue::Mapping(vec![entry("type", text("http")), entry("url", text("http://feed/u"))]),
        ),
    ];
    cfg.parse(&map).unwrap();
    cfg
}

#[test]
fn decode_then_merge_round_trip() {
    // Dynamic feed: alice (colliding with a static alice) and bob.
    let payload = ConfigValue::Sequence(vec![
        user_record("alice", "dynamic-token"),
        user_record("bob", "bob-token"),
    ]);
    let set = decode(&payload).unwrap();
    assert_eq!(set.len(), 2);

    let cfg = group_with_source("g1", vec![user_record("alice", "static-token"), user_record("carol", "carol-token")]);
    let mut group = UserGroup::new(cfg);
    group.apply_fetch_result(Ok(set));
    assert_eq!(group.state, GroupState::Live);

    // Every unique username of the payload is in the merged view.
    let merged = group.merged_set();
    assert!(merged.get("alice").is_some());
    assert!(merged.get("bob").is_some());
    // Static-only names survive; dynamic overrides static on collision.
    assert!(merged.get("carol").is_some());
    assert_eq!(merged.get("alice").unwrap().token, "dynamic-token");
    assert_eq!(merged.get("bob").unwrap().token, "bob-token");
    assert_eq!(merged.get("carol").unwrap().token, "carol-token");
}

#[test]
fn duplicate_user_in_payload_rejected() {
    let payload = ConfigValue::Sequence(vec![
        user_record("alice", "a"),
        user_record("alice", "b"),
    ]);
    match decode(&payload) {
        Err(DecodeError::BadRecord(ConfigError::DuplicateUser(n))) => assert_eq!(n, "alice"),
        _ => panic!("expected a duplicate-user error"),
    }
}

#[test]
fn non_sequence_payload_rejected() {
    assert!(matches!(decode(&text("oops")), Err(DecodeError::NotSequence)));
}

#[test]
fn refresh_idempotent() {
    let cfg = group_with_source("g1", vec![user_record("alice", "static-token")]);
    let mut group = UserGroup::new(cfg);

    let payload = ConfigValue::Sequence(vec![user_record("bob", "bob-token")]);
    group.apply_fetch_result(Ok(decode(&payload).unwrap()));
    let first = group.merged_set();

    // The same payload again: the merged credential set is content-equal.
    group.apply_fetch_result(Ok(decode(&payload).unwrap()));
    let second = group.merged_set();

    assert_eq!(first.len(), second.len());
    for u in &first.users {
        let other = second.get(u.name.as_str()).unwrap();
        assert_eq!(other.token, u.token);
        assert_eq!(other.expire, u.expire);
        assert_eq!(other.metadata, u.metadata);
    }
}

#[test]
fn failed_fetch_changes_nothing_seen() {
    let cfg = group_with_source("g1", vec![user_record("alice", "static-token")]);
    let mut reg = AuthRegistry::load(vec![cfg]).unwrap();

    let payload = ConfigValue::Sequence(vec![user_record("bob", "bob-token")]);
    reg.apply_fetch("g1", Ok(decode(&payload).unwrap())).unwrap();

    let alice_before = reg.lookup("g1", "alice").unwrap();
    let bob_before = reg.lookup("g1", "bob").unwrap();

    reg.apply_fetch("g1", Err(FetchError::Timeout)).unwrap();

    // Subsequent lookups are unchanged from before the failed attempt.
    let alice_after = reg.lookup("g1", "alice").unwrap();
    let bob_after = reg.lookup("g1", "bob").unwrap();
    assert_eq!(alice_before.token, alice_after.token);
    assert_eq!(bob_before.token, bob_after.token);
    assert_eq!(reg.groups[0].state, GroupState::Stale);

    // A later success goes straight back to live.
    reg.apply_fetch("g1", Ok(decode(&payload).unwrap())).unwrap();
    assert_eq!(reg.groups[0].state, GroupState::Live);
}

#[test]
fn pending_stays_pending_on_failure() {
    let cfg = group_with_source("g1", vec![]);
    let mut group = UserGroup::new(cfg);
    assert_eq!(group.state, GroupState::Pending);
    group.apply_fetch_result(Err(FetchError::NotFound));
    assert_eq!(group.state, GroupState::Pending);
}

#[test]
fn swap_never_hides_a_name_present_in_both() {
    // One writer swaps snapshots while readers hold either the prior or
    // the next one; a name present in both is found in whichever they hold.
    let cfg = group_with_source("g1", vec![user_record("alice", "static-token")]);
    let mut group = UserGroup::new(cfg);

    let old_payload = ConfigValue::Sequence(vec![user_record("bob", "v1")]);
    group.apply_fetch_result(Ok(decode(&old_payload).unwrap()));
    let prior = group.merged_set();

    let new_payload = ConfigValue::Sequence(vec![user_record("bob", "v2"), user_record("dave", "d")]);
    group.apply_fetch_result(Ok(decode(&new_payload).unwrap()));
    let next = group.merged_set();

    // "alice" and "bob" are in both snapshots: every reader finds them.
    for snapshot in [&prior, &next] {
        assert!(snapshot.get("alice").is_some());
        assert!(snapshot.get("bob").is_some());
    }
    // The prior snapshot is complete and untouched by the swap.
    assert_eq!(prior.get("bob").unwrap().token, "v1");
    assert_eq!(next.get("bob").unwrap().token, "v2");
    assert!(prior.get("dave").is_none());
}

#[test]
fn lookup_errors_told_apart() {
    let mut cfg = UserGroupConfig::new(None);
    cfg.parse(&vec![
        entry("name", text("g1")),
        entry("static_users", ConfigValue::Sequence(vec![user_record("alice", "t")])),
    ])
    .unwrap();
    let reg = AuthRegistry::load(vec![cfg]).unwrap();

    assert!(matches!(reg.lookup("nope", "alice"), Err(LookupError::UnknownGroup)));
    assert!(matches!(reg.lookup("g1", "mallory"), Err(LookupError::UnknownUser)));
    assert_eq!(reg.lookup("g1", "alice").unwrap().token, "t");
}

#[test]
fn duplicate_group_rejects_generation() {
    let mut a = UserGroupConfig::new(None);
    a.parse(&vec![entry("name", text("g1"))]).unwrap();
    let mut b = UserGroupConfig::new(None);
    b.parse(&vec![entry("name", text("g1"))]).unwrap();
    match AuthRegistry::load(vec![a, b]) {
        Err(ConfigError::DuplicateGroup(n)) => assert_eq!(n, "g1"),
        _ => panic!("expected a duplicate-group error"),
    }
}

#[test]
fn seeded_group_is_terminal() {
    let mut cfg = UserGroupConfig::new(None);
    cfg.parse(&vec![
        entry("name", text("g1")),
        entry("static_users", ConfigValue::Sequence(vec![user_record("alice", "t")])),
    ])
    .unwrap();
    let mut reg = AuthRegistry::load(vec![cfg]).unwrap();
    assert_eq!(reg.groups[0].state, GroupState::Seeded);

    // A fetch outcome routed to a group without a dynamic source changes nothing.
    let payload = ConfigValue::Sequence(vec![user_record("bob", "b")]);
    reg.apply_fetch("g1", Ok(decode(&payload).unwrap())).unwrap();
    assert_eq!(reg.groups[0].state, GroupState::Seeded);
    assert!(matches!(reg.lookup("g1", "bob"), Err(LookupError::UnknownUser)));
}

#[test]
fn stagger_offsets_stay_inside_interval() {
    let interval = 60_000_000_000u128;
    for idx in 0..20usize {
        let off = AuthRegistry::stagger_offset(idx, interval);
        assert!(off < interval);
        assert_eq!(off, (idx as u128 % 8) * (interval / 8));
    }
}

#[test]
fn empty_payload_yields_empty_set() {
    let set = decode(&ConfigValue::Sequence(vec![])).unwrap();
    assert_eq!(set.len(), 0);

    // Merging an empty dynamic set leaves the static credentials intact.
    let cfg = group_with_source("g1", vec![user_record("alice", "static-token")]);
    let mut group = UserGroup::new(cfg);
    group.apply_fetch_result(Ok(set));
    let merged = group.merged_set();
    assert_eq!(merged.len(), 1);
    assert_eq!(merged.get("alice").unwrap().token, "static-token");
}

#[test]
fn tiny_interval_stagger_is_zero() {
    for idx in 0..10usize {
        assert_eq!(AuthRegistry::stagger_offset(idx, 7), 0);
    }
}
