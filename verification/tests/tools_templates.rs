use paint_type::tools::templates::{
    generate_cargo_toml, generate_gitignore, generate_license, generate_readme, generate_rust_effect_lib,
    generate_rust_tool_lib, scaffold_plan, AGPL_LICENSE, MIT_LICENSE,
};
use paint_type::tools::wizard::{PluginCapability, PluginLanguage, PluginType, WizardConfig};

fn config() -> WizardConfig {
    let mut c = WizardConfig::default();
    c.id = "Com.Example.Blur".to_string();
    c.name = "soft blur".to_string();
    c.description = "Blurs softly".to_string();
    c.author = "Ada".to_string();
    c
}

#[test]
fn cargo_toml_uses_lowercase_dashed_crate_name() {
    let t = generate_cargo_toml(&config());
    assert!(t.starts_with("[package]\n\nname = \"com-example-blur\"\nversion = \"0.1.0\"\nedition = \"2021\"\nlicense = \"AGPL-3.0-or-later\"\n"));
    assert!(t.ends_with("strip = true\n"));
}

#[test]
fn effect_and_tool_scaffolds_carry_the_configuration() {
    let mut c = config();
    c.capabilities = vec![PluginCapability::CanvasRead];
    c.tags = vec!["blur".to_string()];
    let e = generate_rust_effect_lib(&c);
    assert!(e.starts_with("// SPDX-License-Identifier: AGPL-3.0-or-later\n\n// paint.type effect Plugin\n"));
    assert!(e.contains("const PLUGIN_ID: &str = \"Com.Example.Blur\";"));
    assert!(e.contains("capabilities: vec![PluginCapability::CanvasRead],"));
    assert!(e.contains("tags: vec![\"blur\"],"));
    assert!(e.contains("pub struct SoftBlurEffectPlugin;"));
    c.plugin_type = PluginType::Tool;
    let t = generate_rust_tool_lib(&c);
    assert!(t.contains("// paint.type tool Plugin"));
    assert!(t.contains("pub struct SoftBlurToolPlugin {"));
    assert!(t.contains("ToolConfig::new(\"soft blur\")"));
}

#[test]
fn readme_mentions_type_and_author() {
    let mut c = config();
    let r = generate_readme(&c);
    assert!(r.starts_with("= soft blur Plugin\n\n:description: Blurs softly\n"));
    assert!(r.contains("This is a effect plugin for paint.type."));
    assert!(r.contains("Effect plugins apply stateless transformations to the canvas."));
    assert!(r.contains("== Author\n\nAda\n\n"));
    c.author_email = Some("ada@example.org".to_string());
    assert!(generate_readme(&c).contains("== Author\n\nAda\n<ada@example.org\n"));
}

#[test]
fn gitignore_and_licences() {
    assert!(generate_gitignore().starts_with("# SPDX-License-Identifier: CC0-1.0\n"));
    assert_eq!(generate_license("AGPL-3.0-or-later"), AGPL_LICENSE);
    assert_eq!(generate_license("MIT"), MIT_LICENSE);
    assert!(generate_license("Apache-2.0").starts_with("Apache License\nVersion 2.0"));
    assert_eq!(
        generate_license("BSD-2-Clause"),
        "SPDX-License-Identifier: BSD-2-Clause\n\nLicense text: See BSD-2-Clause\n"
    );
}

#[test]
fn scaffold_plan_lists_files_in_order() {
    let mut c = config();
    let paths: Vec<String> = scaffold_plan(&c).into_iter().map(|(p, _)| p).collect();
    assert_eq!(paths, vec!["plugin.toml", "minter.toml", "Cargo.toml", "src/lib.rs", "README.adoc", ".gitignore", "LICENSE"]);
    c.create_minter = false;
    c.language = PluginLanguage::Zig;
    let files = scaffold_plan(&c);
    let paths: Vec<&str> = files.iter().map(|(p, _)| p.as_str()).collect();
    assert_eq!(paths, vec!["plugin.toml", ".gitignore", "LICENSE"]);
    assert_eq!(files[2].1, generate_license(&c.license));
}
