use paint_type::tools::harness::{
    plugin_test_result, wasm_file_name, HarnessConfig, HarnessManifest, HealthCheckConfig, ManifestLookup,
};

#[test]
fn harness_config_defaults() {
    let c = HarnessConfig::default();
    assert_eq!(c.plugin_path, None);
    assert_eq!(c.test_timeout_secs, 30);
    assert_eq!(c.test_memory_limit_mb, 256);
    assert_eq!(c.target, "paint-type");
    assert!(!c.register);
    assert!(c.registry_path.is_none());
    assert!(c.health_check.is_none());
}

#[test]
fn health_check_defaults() {
    let h = HealthCheckConfig::default();
    assert_eq!(h.path, "/health");
    assert_eq!((h.interval_ms, h.timeout_ms, h.unhealthy_threshold), (5000, 1000, 3));
}

#[test]
fn harness_manifest_default_has_schema_only() {
    let m = HarnessManifest::default();
    assert_eq!(m.schema, "paint-type-harness/v1");
    assert!(m.service_id.is_empty());
    assert!(m.capabilities.is_empty());
    assert!(m.data_sources.is_empty());
    assert!(m.health_check.is_none());
}

#[test]
fn wasm_file_name_dashes_the_id() {
    assert_eq!(wasm_file_name("com.example.blur"), "com-example-blur.wasm");
    assert_eq!(wasm_file_name("plain"), "plain.wasm");
}

#[test]
fn test_results_follow_the_manifest_lookup() {
    let r = plugin_test_result("plugins/x", ManifestLookup::Missing, "", true, 7);
    assert!(!r.passed);
    assert_eq!(r.plugin_id, "");
    assert_eq!(r.errors, vec!["plugin.toml not found in plugins/x".to_string()]);
    assert!(r.warnings.is_empty());
    assert_eq!(r.duration_ms, 7);

    let r = plugin_test_result("d", ManifestLookup::Failed("bad toml".to_string()), "", true, 0);
    assert!(!r.passed);
    assert_eq!(r.errors, vec!["failed to load manifest: bad toml".to_string()]);

    let r = plugin_test_result("d", ManifestLookup::Loaded("com.a.b".to_string()), "d/t.wasm", false, 3);
    assert!(r.passed);
    assert_eq!(r.plugin_id, "com.a.b");
    assert!(r.errors.is_empty());
    assert_eq!(
        r.warnings,
        vec!["WASM file not found at d/t.wasm".to_string(), "Run 'cargo build --release' to build the plugin".to_string()]
    );

    let r = plugin_test_result("d", ManifestLookup::Loaded("com.a.b".to_string()), "d/t.wasm", true, 3);
    assert!(r.passed && r.warnings.is_empty());
}
