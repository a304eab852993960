use js2wasm::version::{evaluate_manifest, Version};

fn ver(major: u64, minor: u64, patch: u64) -> Version {
    Version { major, minor, patch, prerelease: false }
}

#[test]
fn newer_manifest_is_announced() {
    let current = ver(1, 0, 0);
    let found = evaluate_manifest("{\"version\": \"1.2.0\"}", &current);
    assert_eq!(found, Some(ver(1, 2, 0)));
}

#[test]
fn older_manifest_is_silent() {
    let current = ver(1, 0, 0);
    assert_eq!(evaluate_manifest("{\"version\": \"0.9.0\"}", &current), None);
}

#[test]
fn equal_manifest_is_silent() {
    let current = ver(1, 0, 0);
    assert_eq!(evaluate_manifest("{\"version\": \"1.0.0\"}", &current), None);
}

#[test]
fn missing_version_field_counts_as_zero() {
    let current = ver(1, 0, 0);
    assert_eq!(evaluate_manifest("{}", &current), None);
    assert_eq!(evaluate_manifest("{\"name\": \"js2wasm\"}", &current), None);
}

#[test]
fn unparseable_version_counts_as_zero() {
    let current = ver(1, 0, 0);
    assert_eq!(evaluate_manifest("{\"version\": \"not-a-version\"}", &current), None);
    assert_eq!(evaluate_manifest("{\"version\": 42}", &current), None);
    assert_eq!(evaluate_manifest("not json at all", &current), None);
}

#[test]
fn zero_current_version_sees_any_release() {
    let current = ver(0, 0, 0);
    assert_eq!(evaluate_manifest("{\"version\": \"0.0.1\"}", &current), Some(ver(0, 0, 1)));
}

#[test]
fn prerelease_manifest_is_silent() {
    let current = ver(1, 0, 0);
    assert_eq!(evaluate_manifest("{\"version\": \"1.2.0-alpha.1\"}", &current), None);
}

#[test]
fn nested_version_field_is_not_the_top_field() {
    let current = ver(1, 0, 0);
    let text = "{\"inner\": {\"version\": \"9.9.9\"}}";
    assert_eq!(evaluate_manifest(text, &current), None);
}

#[test]
fn ordering_is_lexicographic_on_the_triple() {
    assert!(ver(2, 0, 0).newer_than(&ver(1, 9, 9)));
    assert!(ver(1, 1, 0).newer_than(&ver(1, 0, 9)));
    assert!(ver(1, 0, 1).newer_than(&ver(1, 0, 0)));
    assert!(!ver(1, 0, 0).newer_than(&ver(1, 0, 0)));
    assert!(!ver(1, 0, 0).newer_than(&ver(1, 0, 1)));
    assert!(!ver(0, 9, 9).newer_than(&ver(1, 0, 0)));
}

#[test]
fn prerelease_is_never_newer() {
    let remote = Version { major: 2, minor: 0, patch: 0, prerelease: true };
    assert!(!remote.newer_than(&ver(1, 0, 0)));
}

#[test]
fn version_text() {
    assert_eq!(ver(1, 2, 3).render(), b"1.2.3".to_vec());
    assert_eq!(ver(0, 0, 0).render(), b"0.0.0".to_vec());
    assert_eq!(ver(10, 0, 27).render(), b"10.0.27".to_vec());
}
