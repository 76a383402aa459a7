use paint_type::plugins::error::PluginError;
use paint_type::plugins::manifest::{PluginCapability, PluginId, PluginManifest, PluginType, PluginVersion};

#[test]
fn test_version_parse() {
    let v = PluginVersion::parse("1.2.3").unwrap();
    assert_eq!(v.major, 1);
    assert_eq!(v.minor, 2);
    assert_eq!(v.patch, 3);
}

#[test]
fn test_version_compatibility() {
    let v = PluginVersion::parse("1.0.0").unwrap();
    assert!(v.is_compatible());

    let v = PluginVersion::parse("2.0.0").unwrap();
    assert!(!v.is_compatible());
}

#[test]
fn test_manifest_validation() {
    let mut manifest = PluginManifest::default();
    manifest.id = PluginId::new("com.example.test".to_string());
    manifest.name = "Test Plugin".to_string();
    manifest.description = "A test plugin".to_string();
    manifest.author = "Test Author".to_string();
    manifest.wasm_entry = "_start".to_string();

    assert!(manifest.validate().is_ok());
}

#[test]
fn test_manifest_validation_fails() {
    let manifest = PluginManifest::default();
    assert!(manifest.validate().is_err());
}

#[test]
fn version_parse_rejects_malformed_text() {
    assert_eq!(PluginVersion::parse("1.2"), None);
    assert_eq!(PluginVersion::parse("1.2.3.4"), None);
    assert_eq!(PluginVersion::parse("a.b.c"), None);
    assert_eq!(PluginVersion::parse("4294967296.0.0"), None);
    assert_eq!(PluginVersion::parse("4294967295.0.7"), Some(PluginVersion::new(4294967295, 0, 7)));
    assert_eq!(PluginVersion::new(3, 14, 15).to_display_string(), "3.14.15");
    assert_eq!(PluginVersion::MIN_API_VERSION, 1);
    assert_eq!(PluginVersion::CURRENT_API_VERSION, 1);
}

fn valid_manifest() -> PluginManifest {
    let mut m = PluginManifest::default();
    m.id = PluginId::new("com.example.test".to_string());
    m.name = "Test".to_string();
    m.description = "D".to_string();
    m.author = "A".to_string();
    m
}

#[test]
fn validation_reports_the_first_broken_rule() {
    let mut m = valid_manifest();
    m.id = PluginId::new("noreversedomain".to_string());
    match m.validate() {
        Err(PluginError::ManifestValidation(msg)) => {
            assert_eq!(msg, "id must be in reverse domain notation (e.g., com.example.plugin)")
        }
        other => panic!("unexpected {other:?}"),
    }
    match PluginManifest::default().validate() {
        Err(PluginError::ManifestValidation(msg)) => assert_eq!(msg, "id is required"),
        other => panic!("unexpected {other:?}"),
    }
    let mut m = valid_manifest();
    m.license = String::new();
    match m.validate() {
        Err(PluginError::ManifestValidation(msg)) => assert_eq!(msg, "license is required"),
        other => panic!("unexpected {other:?}"),
    }
    let mut m = valid_manifest();
    m.version = PluginVersion::new(2, 0, 0);
    match m.validate() {
        Err(PluginError::UnsupportedVersion(v)) => assert_eq!(v, PluginVersion::new(2, 0, 0)),
        other => panic!("unexpected {other:?}"),
    }
    let mut m = valid_manifest();
    m.api_version = 0;
    assert!(matches!(m.validate(), Err(PluginError::UnsupportedVersion(_))));
}

#[test]
fn required_capabilities_drops_repeats() {
    let mut m = valid_manifest();
    m.capabilities = vec![
        PluginCapability::CanvasRead,
        PluginCapability::CanvasWrite,
        PluginCapability::CanvasRead,
    ];
    assert_eq!(
        m.required_capabilities(),
        vec![PluginCapability::CanvasRead, PluginCapability::CanvasWrite]
    );
    assert!(m.has_capability(PluginCapability::CanvasWrite));
    assert!(!m.has_capability(PluginCapability::NetworkAccess));
}

#[test]
fn from_toml_reads_key_value_lines() {
    let text = "# comment\n[plugin]\nid = \"com.example.blur\"\nname = \"Blur\"\ndescription = 'Soft blur'\nauthor = Ada\ntype = Tool\nversion = \"1.4.2\"\napi_version = 1\nunknown = 5\n";
    let m = PluginManifest::from_toml(text).expect("valid manifest");
    assert_eq!(m.id.as_str(), "com.example.blur");
    assert_eq!(m.name, "Blur");
    assert_eq!(m.description, "'Soft blur'");
    assert_eq!(m.author, "Ada");
    assert_eq!(m.plugin_type, PluginType::Tool);
    assert_eq!(m.version, PluginVersion::new(1, 4, 2));
    assert_eq!(m.wasm_entry, "_start");
    assert_eq!(m.license, "AGPL-3.0-or-later");
}

#[test]
fn from_toml_validates_what_it_read() {
    let r = PluginManifest::from_toml("id = \"com.example.x\"\nname = \"X\"\n");
    match r {
        Err(PluginError::ManifestValidation(msg)) => assert_eq!(msg, "description is required"),
        other => panic!("unexpected {other:?}"),
    }
}

#[test]
fn plugin_error_messages() {
    assert_eq!(
        PluginError::manifest_validation("bad").to_display_string(),
        "Manifest validation failed: bad"
    );
    assert_eq!(
        PluginError::UnsupportedVersion(PluginVersion::new(2, 1, 0)).to_display_string(),
        "Unsupported plugin version: 2.1.0"
    );
    assert_eq!(PluginId::new("com.a.b".to_string()).to_display_string(), "com.a.b");
}

#[test]
fn version_text_parses_back() {
    for (a, b, c) in [(0u32, 0u32, 0u32), (1, 2, 3), (10, 0, 7), (u32::MAX, 42, u32::MAX)] {
        let v = PluginVersion::new(a, b, c);
        assert_eq!(PluginVersion::parse(&v.to_display_string()), Some(v));
    }
}
