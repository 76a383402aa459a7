use paint_type::tools::harness::{generate_harness_manifest, validate_manifest, PluginManifest};

fn sample(id: &str, capabilities: Vec<String>, tags: Vec<String>) -> PluginManifest {
    PluginManifest {
        id: id.to_string(),
        version: "1.0.0".to_string(),
        name: "Test Plugin".to_string(),
        description: "A test plugin".to_string(),
        long_description: None,
        author: "Test Author".to_string(),
        author_email: None,
        plugin_type: "effect".to_string(),
        api_version: 1,
        capabilities,
        wasm_entry: "_start".to_string(),
        icon: None,
        homepage: None,
        license: "AGPL-3.0-or-later".to_string(),
        tags,
    }
}

#[test]
fn test_validate_manifest_valid() {
    let manifest = PluginManifest {
        id: "com.example.test".to_string(),
        version: "1.0.0".to_string(),
        name: "Test Plugin".to_string(),
        description: "A test plugin".to_string(),
        long_description: None,
        author: "Test Author".to_string(),
        author_email: None,
        plugin_type: "effect".to_string(),
        api_version: 1,
        capabilities: vec!["CanvasRead".to_string()],
        wasm_entry: "_start".to_string(),
        icon: None,
        homepage: None,
        license: "AGPL-3.0-or-later".to_string(),
        tags: vec!["test".to_string()],
    };

    assert!(validate_manifest(&manifest).is_ok());
}

#[test]
fn test_validate_manifest_missing_id() {
    let manifest = PluginManifest {
        id: String::new(),
        version: "1.0.0".to_string(),
        name: "Test Plugin".to_string(),
        description: "A test plugin".to_string(),
        long_description: None,
        author: "Test Author".to_string(),
        author_email: None,
        plugin_type: "effect".to_string(),
        api_version: 1,
        capabilities: Vec::new(),
        wasm_entry: "_start".to_string(),
        icon: None,
        homepage: None,
        license: "AGPL-3.0-or-later".to_string(),
        tags: Vec::new(),
    };

    assert!(validate_manifest(&manifest).is_err());
}

#[test]
fn test_generate_harness_manifest() {
    let manifest = sample("com.example.test", vec!["CanvasRead".to_string()], vec!["test".to_string()]);

    let harness = generate_harness_manifest(&manifest, "paint-type");

    assert_eq!(harness.schema, "paint-type-harness/v1");
    assert_eq!(harness.plugin_id, "com.example.test");
    assert!(harness.service_id.contains("paint-type-plugin-com-example-test"));
    assert!(!harness.default_endpoint.is_empty());
}

#[test]
fn harness_manifest_fields_are_exact() {
    let manifest = sample("org.paint.blur", vec!["CanvasRead".to_string(), "CanvasWrite".to_string()], vec![]);
    let h = generate_harness_manifest(&manifest, "studio");
    assert_eq!(h.service_id, "paint-type-plugin-org-paint-blur");
    assert_eq!(h.default_endpoint, "paint-type://studio/org.paint.blur");
    assert_eq!(h.runtime_endpoints.paint_type.as_deref(), Some("paint-type://studio/org.paint.blur"));
    assert_eq!(h.runtime_endpoints.wasm.as_deref(), Some("wasm://_start"));
    assert!(h.runtime_endpoints.http.is_none());
    let hc = h.health_check.expect("health check");
    assert_eq!((hc.path.as_str(), hc.interval_ms, hc.timeout_ms, hc.unhealthy_threshold), ("/health", 5000, 1000, 3));
    assert!(h.data_sources.is_empty());
    assert_eq!(h.capabilities, vec!["CanvasRead".to_string(), "CanvasWrite".to_string()]);
    assert_eq!(h.metadata.name.as_deref(), Some("Test Plugin"));
    assert_eq!(h.metadata.license.as_deref(), Some("AGPL-3.0-or-later"));
}

#[test]
fn validation_lists_every_problem() {
    let mut m = sample("nodots", vec![], vec![]);
    m.name = String::new();
    m.plugin_type = "brush".to_string();
    m.license = String::new();
    let err = validate_manifest(&m).unwrap_err();
    assert_eq!(
        err,
        "manifest validation failed:\n  - 'id' must be in reverse domain notation (e.g., com.example.plugin)\n  - missing 'name' field\n  - 'plugin_type' must be 'effect' or 'tool'\n  - missing 'license' field"
    );
    let mut m = sample("", vec![], vec![]);
    m.plugin_type = String::new();
    assert_eq!(
        validate_manifest(&m).unwrap_err(),
        "manifest validation failed:\n  - missing 'id' field\n  - missing 'plugin_type' field"
    );
}
