use paint_type::plugins::error::PluginError;
use paint_type::plugins::manifest::{PluginCapability, PluginId, PluginManifest, PluginType};
use paint_type::plugins::registry::PluginRegistry;

/// What the tests store for a plugin: its display name.
type Entry = &'static str;

fn manifest(id: &str, plugin_type: PluginType, caps: Vec<PluginCapability>) -> PluginManifest {
    let mut m = PluginManifest::default();
    m.id = PluginId::new(id.to_string());
    m.name = "Test Plugin".to_string();
    m.plugin_type = plugin_type;
    m.capabilities = caps;
    m
}

#[test]
fn test_registry_creation() {
    let registry: PluginRegistry<Entry> = PluginRegistry::new();
    assert!(registry.is_empty());
    assert_eq!(registry.len(), 0);
}

#[test]
fn test_register_builtin_effect() {
    let mut registry: PluginRegistry<Entry> = PluginRegistry::new();
    let id = registry.register_builtin(PluginType::Effect, "Brightness/Contrast");
    assert!(registry.is_loaded(&id));
    assert_eq!(registry.len(), 1);
    assert_eq!(id.as_str(), "builtin.effect.1");
}

#[test]
fn test_register_builtin_tool() {
    let mut registry: PluginRegistry<Entry> = PluginRegistry::new();
    let id = registry.register_builtin(PluginType::Tool, "Brush");
    assert!(registry.is_loaded(&id));
    assert_eq!(registry.len(), 1);
    assert_eq!(id.as_str(), "builtin.tool.1");
}

#[test]
fn test_get_plugin() {
    let mut registry: PluginRegistry<Entry> = PluginRegistry::new();
    let id = registry.register_builtin(PluginType::Effect, "Brightness/Contrast");
    assert_eq!(registry.get(&id), Some(&"Brightness/Contrast"));
    assert_eq!(registry.type_of(&id), Some(PluginType::Effect));
}

#[test]
fn test_unload_plugin() {
    let mut registry: PluginRegistry<Entry> = PluginRegistry::new();
    let id = registry.register_builtin(PluginType::Effect, "Brightness/Contrast");
    assert!(registry.is_loaded(&id));
    registry.unload(&id).unwrap();
    assert!(!registry.is_loaded(&id));
    assert_eq!(registry.len(), 0);
}

#[test]
fn builtin_numbers_keep_counting() {
    let mut registry: PluginRegistry<Entry> = PluginRegistry::new();
    let a = registry.register_builtin(PluginType::Effect, "a");
    let b = registry.register_builtin(PluginType::Tool, "b");
    registry.clear();
    let c = registry.register_builtin(PluginType::Effect, "c");
    assert_eq!((a.as_str(), b.as_str(), c.as_str()), ("builtin.effect.1", "builtin.tool.2", "builtin.effect.3"));
    assert_eq!(registry.len(), 1);
}

#[test]
fn loading_checks_type_and_duplicates() {
    let mut registry: PluginRegistry<Entry> = PluginRegistry::new();
    let m = manifest("com.x.blur", PluginType::Effect, vec![PluginCapability::CanvasRead]);
    match registry.check_loadable(&m, PluginType::Tool) {
        Err(PluginError::ManifestValidation(msg)) => assert_eq!(msg, "Expected tool plugin type"),
        other => panic!("unexpected {other:?}"),
    }
    assert!(registry.check_loadable(&m, PluginType::Effect).is_ok());
    let id = registry.add_loaded(m, "Blur");
    assert_eq!(id.as_str(), "com.x.blur");
    assert_eq!(registry.get_granted_capabilities(&id), Some(&[PluginCapability::CanvasRead][..]));
    assert_eq!(registry.get_manifest(&id).map(|m| m.name.clone()), Some("Test Plugin".to_string()));
    let again = manifest("com.x.blur", PluginType::Effect, vec![]);
    match registry.check_loadable(&again, PluginType::Effect) {
        Err(PluginError::PluginAlreadyLoaded(p)) => assert_eq!(p.as_str(), "com.x.blur"),
        other => panic!("unexpected {other:?}"),
    }
}

#[test]
fn grants_stay_within_the_manifest() {
    let mut registry: PluginRegistry<Entry> = PluginRegistry::new();
    let m = manifest("com.x.tool", PluginType::Tool, vec![PluginCapability::CanvasRead, PluginCapability::CanvasWrite]);
    let id = registry.add_loaded(m, "Tool");
    match registry.grant_capability(&id, PluginCapability::NetworkAccess) {
        Err(PluginError::ManifestValidation(msg)) => {
            assert_eq!(msg, "Cannot grant capability NetworkAccess - not requested in manifest")
        }
        other => panic!("unexpected {other:?}"),
    }
    assert!(!registry.has_capability(&id, PluginCapability::NetworkAccess));
    assert!(registry.grant_capability(&id, PluginCapability::CanvasWrite).is_ok());
    assert_eq!(
        registry.get_granted_capabilities(&id),
        Some(&[PluginCapability::CanvasRead, PluginCapability::CanvasWrite][..])
    );
    // A built-in plugin has no manifest: anything may be granted, once.
    let b = registry.register_builtin(PluginType::Effect, "b");
    assert!(registry.grant_capability(&b, PluginCapability::FileAccess).is_ok());
    assert!(registry.grant_capability(&b, PluginCapability::FileAccess).is_ok());
    assert_eq!(registry.get_granted_capabilities(&b), Some(&[PluginCapability::FileAccess][..]));
}

#[test]
fn listing_by_type_keeps_order() {
    let mut registry: PluginRegistry<Entry> = PluginRegistry::new();
    registry.register_builtin(PluginType::Effect, "e1");
    registry.register_builtin(PluginType::Tool, "t1");
    registry.register_builtin(PluginType::Effect, "e2");
    assert_eq!(registry.plugins_by_type(PluginType::Effect), vec![&"e1", &"e2"]);
    assert_eq!(registry.plugins_by_type(PluginType::Tool), vec![&"t1"]);
    assert_eq!(registry.plugins(), vec![&"e1", &"t1", &"e2"]);
    let ids: Vec<String> = registry.plugin_ids().iter().map(|i| i.as_str().to_string()).collect();
    assert_eq!(ids, vec!["builtin.effect.1", "builtin.tool.2", "builtin.effect.3"]);
}

#[test]
fn get_mut_changes_the_stored_value_in_place() {
    let mut registry: PluginRegistry<Entry> = PluginRegistry::new();
    let id = registry.register_builtin(PluginType::Effect, "Blur");
    *registry.get_mut(&id).unwrap() = "Sharpen";
    assert_eq!(registry.get(&id), Some(&"Sharpen"));
    assert_eq!(registry.type_of(&id), Some(PluginType::Effect));
    assert!(registry.get_mut(&PluginId::new("com.none".to_string())).is_none());
    assert_eq!(registry.len(), 1);
}
