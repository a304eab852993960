use js2wasm::update::{
    eq_bytes, fresh_record, parse_record, plan_update_check, render_record, should_check,
    CacheReadOutcome, UpdateRecord,
};

fn rec(data_version: u16, last_check: u64) -> UpdateRecord {
    UpdateRecord { data_version, last_check }
}

#[test]
fn render_is_the_pretty_document() {
    let bytes = render_record(&rec(1, 1234));
    let expected = "{\n  \"data_version\": 1,\n  \"last_check\": 1234\n}";
    assert_eq!(bytes, expected.as_bytes().to_vec());
}

#[test]
fn render_zero_values() {
    let bytes = render_record(&rec(0, 0));
    let expected = "{\n  \"data_version\": 0,\n  \"last_check\": 0\n}";
    assert_eq!(bytes, expected.as_bytes().to_vec());
}

#[test]
fn parse_accepts_what_render_produces() {
    let samples = [
        rec(1, 0),
        rec(1, 86400),
        rec(1, 1698888888),
        rec(0, 1),
        rec(65535, u64::MAX),
        rec(1, u64::MAX - 1),
    ];
    for sample in samples {
        let bytes = render_record(&sample);
        assert_eq!(parse_record(&bytes), Some(sample));
    }
}

#[test]
fn parse_accepts_a_canonical_text() {
    let text = "{\n  \"data_version\": 1,\n  \"last_check\": 1698888888\n}";
    assert_eq!(parse_record(&text.as_bytes().to_vec()), Some(rec(1, 1698888888)));
}

#[test]
fn parse_rejects_malformed_texts() {
    let bad = [
        "",
        "{}",
        "nonsense",
        "{\"data_version\": 1, \"last_check\": 2}",
        "{\n  \"data_version\": 01,\n  \"last_check\": 2\n}",
        "{\n  \"data_version\": 1,\n  \"last_check\": 02\n}",
        "{\n  \"last_check\": 2,\n  \"data_version\": 1\n}",
        "{\n  \"data_version\": 1,\n  \"last_check\": 2\n} ",
        "{\n  \"data_version\": 1,\n  \"last_check\": 2",
        "{\n  \"data_version\": 65536,\n  \"last_check\": 2\n}",
        "{\n  \"data_version\": 1,\n  \"last_check\": 18446744073709551616\n}",
        "{\n  \"data_version\": -1,\n  \"last_check\": 2\n}",
        "{\n  \"data_version\": 1,\n  \"last_check\": 2e3\n}",
    ];
    for text in bad {
        assert_eq!(parse_record(&text.as_bytes().to_vec()), None, "accepted: {:?}", text);
    }
}

#[test]
fn parse_accepts_the_largest_timestamp() {
    let text = "{\n  \"data_version\": 1,\n  \"last_check\": 18446744073709551615\n}";
    assert_eq!(parse_record(&text.as_bytes().to_vec()), Some(rec(1, u64::MAX)));
}

#[test]
fn fresh_record_carries_schema_and_write_time() {
    let now = 1698888888;
    let r = fresh_record(now);
    assert_eq!(r.data_version, 1);
    assert_eq!(r.last_check, now);
}

#[test]
fn recent_cache_suppresses_the_check() {
    let now = 1_000_000;
    assert!(!should_check(now, now - 100));
}

#[test]
fn stale_cache_triggers_the_check() {
    let now = 1_000_000;
    assert!(should_check(now, now - 90000));
}

#[test]
fn window_boundary_is_exclusive() {
    let now = 1_000_000;
    assert!(!should_check(now, now - 86400));
    assert!(should_check(now, now - 86401));
}

#[test]
fn future_timestamp_counts_as_recent() {
    let now = 1_000_000;
    assert!(!should_check(now, now + 5));
    assert!(!should_check(now, now));
}

#[test]
fn plan_checks_when_no_cache_exists() {
    assert!(plan_update_check(&CacheReadOutcome::Absent, 1_000_000));
}

#[test]
fn plan_skips_when_cache_is_unreadable() {
    assert!(!plan_update_check(&CacheReadOutcome::Unreadable, 1_000_000));
}

#[test]
fn plan_follows_the_window_on_a_wellformed_cache() {
    let now = 1_000_000;
    let recent = render_record(&rec(1, now - 100));
    assert!(!plan_update_check(&CacheReadOutcome::Contents(recent), now));
    let stale = render_record(&rec(1, now - 90000));
    assert!(plan_update_check(&CacheReadOutcome::Contents(stale), now));
}

#[test]
fn plan_skips_on_a_malformed_cache() {
    let garbage = b"{\"last\": 1}".to_vec();
    assert!(!plan_update_check(&CacheReadOutcome::Contents(garbage), 1_000_000));
}

#[test]
fn byte_equality() {
    assert!(eq_bytes(&b"abc".to_vec(), &b"abc".to_vec()));
    assert!(!eq_bytes(&b"abc".to_vec(), &b"abd".to_vec()));
    assert!(!eq_bytes(&b"abc".to_vec(), &b"ab".to_vec()));
    assert!(eq_bytes(&Vec::new(), &Vec::new()));
}
