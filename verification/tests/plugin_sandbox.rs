use paint_type::plugins::error::PluginError;
use paint_type::plugins::manifest::{PluginCapability, PluginId, PluginManifest};
use paint_type::plugins::sandbox::WasmSandbox;

fn manifest() -> PluginManifest {
    let mut manifest = PluginManifest::default();
    manifest.id = PluginId::new("com.test.plugin".to_string());
    manifest.name = "Test Plugin".to_string();
    manifest.description = "Test".to_string();
    manifest.author = "Test".to_string();
    manifest.wasm_entry = "_start".to_string();
    manifest
}

#[test]
fn test_sandbox_creation() {
    let mut manifest = PluginManifest::default();
    manifest.id = PluginId::new("com.test.plugin".to_string());
    manifest.name = "Test Plugin".to_string();
    manifest.description = "Test".to_string();
    manifest.author = "Test".to_string();
    manifest.wasm_entry = "_start".to_string();

    let sandbox = WasmSandbox::new(manifest);
    assert_eq!(sandbox.id().as_str(), "com.test.plugin");
    assert!(!sandbox.is_loaded());
}

#[test]
fn test_sandbox_grant_capability() {
    let mut manifest = PluginManifest::default();
    manifest.id = PluginId::new("com.test.plugin".to_string());
    manifest.name = "Test Plugin".to_string();
    manifest.description = "Test".to_string();
    manifest.author = "Test".to_string();
    manifest.wasm_entry = "_start".to_string();
    manifest.capabilities = vec![PluginCapability::CanvasRead];

    let mut sandbox = WasmSandbox::new(manifest);
    assert!(!sandbox.has_capability(PluginCapability::CanvasRead));

    sandbox.grant_capability(PluginCapability::CanvasRead).unwrap();
    assert!(sandbox.has_capability(PluginCapability::CanvasRead));
}

#[test]
fn test_sandbox_grant_unrequested_capability() {
    let mut manifest = PluginManifest::default();
    manifest.id = PluginId::new("com.test.plugin".to_string());
    manifest.name = "Test Plugin".to_string();
    manifest.description = "Test".to_string();
    manifest.author = "Test".to_string();
    manifest.wasm_entry = "_start".to_string();

    let mut sandbox = WasmSandbox::new(manifest);
    let result = sandbox.grant_capability(PluginCapability::CanvasRead);
    assert!(result.is_err());
}

#[test]
fn state_reads_back_the_latest_write() {
    let mut s = WasmSandbox::new(manifest());
    assert_eq!(s.get_state("k"), None);
    s.set_state("k".to_string(), "v1".to_string()).unwrap();
    s.set_state("other".to_string(), "x".to_string()).unwrap();
    s.set_state("k".to_string(), "v2".to_string()).unwrap();
    assert_eq!(s.get_state("k"), Some("v2".to_string()));
    assert_eq!(s.get_state("other"), Some("x".to_string()));
    s.clear_state();
    assert_eq!(s.get_state("k"), None);
}

#[test]
fn load_invoke_unload_cycle() {
    let mut s = WasmSandbox::new(manifest());
    match s.load("/plugins/missing.wasm", false) {
        Err(PluginError::IoError(p, m)) => {
            assert_eq!(p, "/plugins/missing.wasm");
            assert_eq!(m, "WASM file not found");
        }
        other => panic!("unexpected {other:?}"),
    }
    assert!(!s.is_loaded());
    match s.invoke("run", &[1, 2]) {
        Err(PluginError::PluginError(m)) => assert_eq!(m, "Plugin not loaded"),
        other => panic!("unexpected {other:?}"),
    }
    s.load("/plugins/blur.wasm", true).unwrap();
    assert!(s.is_loaded());
    assert_eq!(s.invoke("run", &[1, 2, 3]).unwrap(), vec![1, 2, 3]);
    s.set_state("a".to_string(), "b".to_string()).unwrap();
    s.unload().unwrap();
    assert!(!s.is_loaded());
    assert_eq!(s.get_state("a"), None);
    assert!(s.unload().is_ok());
}

#[test]
fn granting_twice_is_granting_once_and_unrequested_message() {
    let mut m = manifest();
    m.capabilities = vec![PluginCapability::CanvasWrite];
    let mut s = WasmSandbox::new(m);
    s.grant_capability(PluginCapability::CanvasWrite).unwrap();
    s.grant_capability(PluginCapability::CanvasWrite).unwrap();
    assert!(s.has_capability(PluginCapability::CanvasWrite));
    match s.grant_capability(PluginCapability::NetworkAccess) {
        Err(PluginError::ManifestValidation(msg)) => {
            assert!(msg.starts_with("Cannot grant capability "));
            assert!(msg.ends_with(" - not requested in manifest"));
        }
        other => panic!("unexpected {other:?}"),
    }
    assert!(!s.has_capability(PluginCapability::NetworkAccess));
    assert_eq!(s.manifest().name, "Test Plugin");
}
