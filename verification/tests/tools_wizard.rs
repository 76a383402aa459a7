use paint_type::tools::wizard::{
    capability_to_str, format_capabilities, format_tags, generate_minter_toml, generate_plugin_toml,
    plugin_type_to_str, validate_id, validate_name, PluginCapability, PluginLanguage, PluginType,
    WizardConfig,
};

fn config() -> WizardConfig {
    let mut c = WizardConfig::default();
    c.id = "com.example.blur".to_string();
    c.name = "Blur".to_string();
    c.description = "Soft blur".to_string();
    c.author = "Ada".to_string();
    c
}

#[test]
fn plugin_toml_minimal() {
    let expected = "id = \"com.example.blur\"\n\nname = \"Blur\"\n\ndescription = \"Soft blur\"\n\nversion = \"0.1.0\"\n\nauthor = \"Ada\"\n\nplugin_type = \"effect\"\n\nwasm_entry = \"_start\"\n\nlicense = \"AGPL-3.0-or-later\"\n\n[capabilities]\n";
    assert_eq!(generate_plugin_toml(&config()), expected);
}

#[test]
fn plugin_toml_with_optional_fields() {
    let mut c = config();
    c.plugin_type = PluginType::Tool;
    c.long_description = Some("Longer".to_string());
    c.author_email = Some("ada@example.org".to_string());
    c.homepage = Some("https://example.org".to_string());
    c.icon = Some("icon.png".to_string());
    c.capabilities = vec![PluginCapability::CanvasRead, PluginCapability::LayerAccess];
    c.tags = vec!["blur".to_string(), "soft".to_string()];
    let expected = "id = \"com.example.blur\"\n\nname = \"Blur\"\n\ndescription = \"Soft blur\"\n\nversion = \"0.1.0\"\n\nlong_description = \"\"\"\nLonger\n\"\"\"\n\nauthor = \"Ada\"\n\nauthor_email = \"ada@example.org\"\n\nplugin_type = \"tool\"\n\nwasm_entry = \"_start\"\n\nlicense = \"AGPL-3.0-or-later\"\n\nhomepage = \"https://example.org\"\n\nicon = \"icon.png\"\n\n[capabilities]\n  canvas_read = true\n  layer_access = true\n\n\ntags = [\"blur\", \"soft\"]";
    assert_eq!(generate_plugin_toml(&c), expected);
}

#[test]
fn minter_toml_minimal_and_full() {
    let c = config();
    let expected = "name = \"Blur\"\n\ndescription = \"Soft blur\"\n\nversion = \"0.1.0\"\n\nid = \"com.example.blur\"\n\nauthor = \"Ada\"\n\nplugin_type = \"effect\"\n\nwasm_entry = \"_start\"\n\nlicense = \"AGPL-3.0-or-later\"\n";
    assert_eq!(generate_minter_toml(&c), expected);

    let mut c = config();
    c.author_email = Some("a@b.c".to_string());
    c.capabilities = vec![PluginCapability::FileAccess];
    c.tags = vec!["x".to_string()];
    let full = generate_minter_toml(&c);
    assert_eq!(
        full,
        format!("{expected}\nauthor_email = \"a@b.c\"\n\n[capabilities]\n  file_access = true\n\n\ntags = [\"x\"]")
    );
}

#[test]
fn id_and_name_checks() {
    assert_eq!(validate_id(""), Err("Plugin ID cannot be empty".to_string()));
    assert_eq!(
        validate_id("plugin"),
        Err("Plugin ID must be in reverse domain notation (e.g., com.example.plugin)".to_string())
    );
    assert_eq!(validate_id(".com.x"), Err("Plugin ID cannot start or end with a dot".to_string()));
    assert_eq!(validate_id("com.x."), Err("Plugin ID cannot start or end with a dot".to_string()));
    assert_eq!(validate_id("com.x"), Ok(()));
    assert_eq!(validate_name(""), Err("Plugin name cannot be empty".to_string()));
    assert_eq!(validate_name("n"), Ok(()));
}

#[test]
fn names_and_lists() {
    assert_eq!(plugin_type_to_str(&PluginType::Tool), "tool");
    assert_eq!(capability_to_str(&PluginCapability::PersistentStorage), "persistent_storage");
    assert_eq!(format_tags(&vec![]), "");
    assert_eq!(format_tags(&vec!["a".to_string(), "b c".to_string()]), "\"a\", \"b c\"");
    assert_eq!(format_capabilities(&vec![]), "");
    assert_eq!(
        format_capabilities(&vec![PluginCapability::CanvasRead, PluginCapability::UserInterface]),
        "PluginCapability::CanvasRead, PluginCapability::UserInterface"
    );
    assert_eq!(PluginLanguage::TypeScript.to_display_string(), "typescript");
    assert_eq!(PluginCapability::SelectionAccess.to_display_string(), "Selection Access");
    assert_eq!(PluginType::Effect.to_display_string(), "effect");
}
