use paint_type::groove::{
    is_semver_ish, is_valid_service_id, paint_type_manifest, Discovery, ManifestError, SimDiscovery,
    GROOVE_VERSION,
};

#[test]
fn manifest_validates() {
    assert_eq!(paint_type_manifest().validate(), Ok(()));
}

#[test]
fn rejects_bad_service_id() {
    let mut m = paint_type_manifest();
    m.service_id = "Paint_Type".to_string();
    assert!(matches!(m.validate(), Err(ManifestError::BadServiceId(_))));
}

#[test]
fn rejects_wrong_groove_version() {
    let mut m = paint_type_manifest();
    m.groove_version = "2".to_string();
    assert!(matches!(m.validate(), Err(ManifestError::WrongGrooveVersion(_))));
}

#[test]
fn json_contains_required_top_level_keys() {
    let j = paint_type_manifest().to_json();
    for key in [
        "\"groove_version\"",
        "\"service_id\"",
        "\"capabilities\"",
        "\"collab-canvas\"",
        "\"webrtc\"",
    ] {
        assert!(j.contains(key), "missing {key} in:\n{j}");
    }
}

#[test]
fn discovery_round_trip() {
    let mut d = SimDiscovery::new();
    d.announce("room-xyz", paint_type_manifest());
    let found = d.discover();
    assert_eq!(found.len(), 1);
    assert_eq!(found[0].service_id, "paint-type");
    assert_eq!(found[0].room, "room-xyz");
    assert!(found[0].manifest.validate().is_ok());
}

#[test]
fn rejects_empty_capabilities_and_bad_version() {
    let mut m = paint_type_manifest();
    m.capabilities.clear();
    assert_eq!(m.validate(), Err(ManifestError::NoCapabilities));
    let mut m = paint_type_manifest();
    m.service_version = "1.x".to_string();
    assert_eq!(m.validate(), Err(ManifestError::BadServiceVersion("1.x".to_string())));
}

#[test]
fn service_id_and_semver_rules() {
    assert!(is_valid_service_id("paint-type"));
    assert!(is_valid_service_id("a1-b2"));
    assert!(!is_valid_service_id(""));
    assert!(!is_valid_service_id("-paint"));
    assert!(is_valid_service_id("paint_"));
    assert!(!is_valid_service_id("Paint"));
    assert!(is_semver_ish("0.1.0"));
    assert!(is_semver_ish("10.20.30"));
    assert!(!is_semver_ish("1.2"));
    assert!(!is_semver_ish("1..2"));
    assert!(is_semver_ish("1.2.3.4"));
    assert!(is_semver_ish("1.2.3-beta+7"));
    assert!(!is_semver_ish("1.2.3x"));
    assert_eq!(GROOVE_VERSION, "1");
}

#[test]
fn json_is_deterministic_and_starts_with_version() {
    let a = paint_type_manifest().to_json();
    let b = paint_type_manifest().to_json();
    assert_eq!(a, b);
    assert!(a.starts_with("{\n  \"groove_version\": \"1\",\n  \"service_id\": \"paint-type\",\n"));
    assert!(a.ends_with('}') || a.ends_with("}\n"));
}
