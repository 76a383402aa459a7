use paint_type::tools::minter::{destination_for, replace_all_exec, replace_placeholders, validate_config, MinterConfig};

fn cfg() -> MinterConfig {
    let mut c = MinterConfig::default();
    c.name = "blur_tool".to_string();
    c.description = "Blur".to_string();
    c.id = "com.example.blur".to_string();
    c.author = "Ada".to_string();
    c
}

#[test]
fn minter_config_validation() {
    assert_eq!(validate_config(&cfg()), Ok(()));
    let mut c = MinterConfig::default();
    c.plugin_type = "brush".to_string();
    c.id = "nodot".to_string();
    assert_eq!(
        validate_config(&c),
        Err("minter.toml validation failed:\n  - missing 'name' field\n  - missing 'description' field\n  - 'id' must be in reverse domain notation (e.g., com.example.plugin)\n  - missing 'author' field\n  - 'plugin_type' must be 'effect' or 'tool'".to_string())
    );
}

#[test]
fn destination_defaults_under_available_plugins() {
    assert_eq!(destination_for(&cfg(), None), "src/plugins/available/com.example.blur");
    assert_eq!(destination_for(&cfg(), Some("./here")), "./here");
}

#[test]
fn placeholders_are_replaced_in_order() {
    let mut c = cfg();
    c.author_email = Some("ada@example.org".to_string());
    let out = replace_placeholders(
        "id=PLUGIN_ID name=PLUGIN_NAME camel=PLUGIN_CAMEL_NAME crate=PLUGIN_CRATE_NAME api=PLUGIN_API_VERSION mail=PLUGIN_AUTHOR_EMAIL icon=[PLUGIN_ICON]",
        &c,
        "com-example-blur",
    );
    assert_eq!(
        out,
        "id=com.example.blur name=blur_tool camel=BlurTool crate=com-example-blur api=1 mail=Ada_EMAIL icon=[]"
    );
    assert_eq!(replace_all_exec("aaaa", "aa", "b"), "bb");
    assert_eq!(replace_all_exec("xyz", "q", "r"), "xyz");
}
