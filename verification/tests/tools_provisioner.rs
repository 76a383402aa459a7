use paint_type::plugins::manifest::{PluginCapability, PluginId, PluginManifest};
use paint_type::tools::provisioner::{
    check_copy, checksum_hex, get_plugin_dir, get_wasm_file, join, plugin_target, removal_path, copied_by_walk, DeploymentResult, PluginConfig,
    ProvisioningPhase, ProvisioningState,
};

#[test]
fn checksum_of_known_inputs() {
    assert_eq!(
        checksum_hex(b""),
        "e3b0c44298fc1c149afbf4c8996fb92427ae41e4649b934ca495991b7852b855"
    );
    assert_eq!(
        checksum_hex(b"abc"),
        "ba7816bf8f01cfea414140de5dae2223b00361a396177a9cb410ff61f20015ad"
    );
}

#[test]
fn copy_check_compares_checksums() {
    assert_eq!(check_copy("ab12", "ab12"), Ok("ab12".to_string()));
    assert_eq!(
        check_copy("ab12", "cd34"),
        Err("Checksum mismatch after copy: src=ab12, dst=cd34".to_string())
    );
}

#[test]
fn state_machine_records_log_and_errors() {
    let mut s = ProvisioningState::new();
    assert_eq!(s.phase, ProvisioningPhase::Idle);
    assert!(!s.is_complete());
    s.log("Starting provisioning");
    s.error("boom");
    s.phase = ProvisioningPhase::Complete;
    assert!(s.is_complete());
    assert!(!s.is_failed());
    assert_eq!(s.provisioning_log, vec!["Starting provisioning".to_string()]);
    assert_eq!(s.errors, vec!["boom".to_string()]);
    s.phase = ProvisioningPhase::Failed;
    assert!(s.is_failed());
}

#[test]
fn paths_join_like_std_paths() {
    assert_eq!(join("a/b", "c"), "a/b/c");
    assert_eq!(join("a/b/", "c"), "a/b/c");
    assert_eq!(join("", "c"), "c");
    assert_eq!(join("a", "/abs"), "/abs");
    assert_eq!(get_plugin_dir(), "src/plugins/available");
    assert_eq!(
        plugin_target("deploy", &PluginId::new("com.example.blur".to_string())),
        "deploy/com.example.blur"
    );
    let mut m = PluginManifest::default();
    m.wasm_entry = "blur.wasm".to_string();
    assert_eq!(get_wasm_file("src/blur", &m), "src/blur/blur.wasm");
    assert_eq!(removal_path("/opt/p", "deploy"), "/opt/p");
    assert_eq!(removal_path("com.x.y", "deploy"), "deploy/com.x.y");
}

#[test]
fn provisioning_steps_walk_the_phases() {
    let mut s = ProvisioningState::new();
    s.begin("src/blur");
    assert_eq!(s.phase, ProvisioningPhase::ResolvingDependencies);
    s.manifest_loaded(&PluginId::new("com.example.blur".to_string()));
    assert_eq!(s.phase, ProvisioningPhase::Validating);
    s.manifest_validated();
    s.installing();
    assert_eq!(s.phase, ProvisioningPhase::Installing);
    s.wasm_copied("deploy/com.example.blur/blur.wasm");
    s.configuring();
    assert_eq!(s.phase, ProvisioningPhase::Configuring);
    s.complete();
    assert!(s.is_complete());
    assert_eq!(
        s.provisioning_log,
        vec![
            "Starting provisioning from: src/blur".to_string(),
            "Loaded manifest for plugin: com.example.blur".to_string(),
            "Manifest validated successfully".to_string(),
            "Copying plugin files...".to_string(),
            "WASM module copied: deploy/com.example.blur/blur.wasm".to_string(),
            "Creating plugin configuration...".to_string(),
            "Provisioning complete".to_string(),
        ]
    );
    assert!(s.errors.is_empty());
}

#[test]
fn deployment_result_grants_requested_capabilities() {
    let mut m = PluginManifest::default();
    m.id = PluginId::new("com.example.blur".to_string());
    m.name = "Blur".to_string();
    m.capabilities = vec![PluginCapability::CanvasRead, PluginCapability::CanvasWrite];
    let r = DeploymentResult::for_manifest(&m, "deploy/com.example.blur".to_string(), "ab12".to_string(), "t0".to_string());
    assert_eq!(r.plugin_id.as_str(), "com.example.blur");
    assert_eq!(r.plugin_name, "Blur");
    assert_eq!(r.target_directory, "deploy/com.example.blur");
    assert_eq!(r.capabilities_granted, m.capabilities);
    assert!(r.dependencies_resolved.is_empty());
    assert_eq!(r.checksum, "ab12");
    assert_eq!(r.timestamp, "t0");
}

#[test]
fn deploy_config_enables_and_grants_requested() {
    let mut m = PluginManifest::default();
    m.id = PluginId::new("com.example.blur".to_string());
    m.capabilities = vec![PluginCapability::CanvasRead];
    let c = PluginConfig::for_manifest(&m);
    assert_eq!(c.id.as_str(), "com.example.blur");
    assert!(c.enabled);
    assert_eq!(c.capabilities, vec![PluginCapability::CanvasRead]);
    assert_eq!(c.granted_capabilities, vec![PluginCapability::CanvasRead]);
    assert_eq!(c.priority, 100);
}

#[test]
fn walk_skips_manifests_and_module() {
    assert!(!copied_by_walk("plugin.toml", "blur.wasm"));
    assert!(!copied_by_walk("plugin.json", "blur.wasm"));
    assert!(!copied_by_walk("blur.wasm", "blur.wasm"));
    assert!(copied_by_walk("assets/icon.png", "blur.wasm"));
    assert!(copied_by_walk("README.md", "blur.wasm"));
}
