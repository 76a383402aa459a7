//! The files the plugin wizard writes besides the manifests: the Rust
//! crate manifest and library scaffolds, the README, the ignore file and
//! the licence text.

use vstd::prelude::*;
use crate::tools::minter::{camel_case, replace_char, replace_char_exec, to_camel_case, to_lowercase, unicode_lowercase};
use crate::tools::wizard::{
    format_capabilities, format_tags, generate_minter_toml, generate_plugin_toml, minter_toml, plugin_toml,
    plugin_type_to_str, plugin_type_word, quoted_list, texts_of, variant_list, PluginLanguage, PluginType,
    WizardConfig,
};

verus! {

/// The `.gitignore` written into a new plugin.
pub const GITIGNORE: &'static str = "# SPDX-License-Identifier: CC0-1.0\n\n# Build artifacts\ntarget/\n\n# IDE\n.idea/\n.vscode/\n*.swp\n*.swo\n\n# macOS\n.DS_Store\n\n# Windows\nThumbs.db\n\n# Environment\n.env\n.env.local\n";

/// The AGPL-3.0-or-later notice.
pub const AGPL_LICENSE: &'static str = "GNU AFFERO GENERAL PUBLIC LICENSE\nVersion 3, 19 November 2007\n\nCopyright (C) 2007 Free Software Foundation, Inc. <https://fsf.org/>\nEveryone is permitted to copy and distribute verbatim copies\nof this license document, but changing it is not allowed.\n\nThis program is free software: you can redistribute it and/or modify\nit under the terms of the GNU Affero General Public License as\npublished by the Free Software Foundation, either version 3 of the\nLicense, or (at your option) any later version.\n\nThis program is distributed in the hope that it will be useful,\nbut WITHOUT ANY WARRANTY; without even the implied warranty of\nMERCHANTABILITY or FITNESS FOR A PARTICULAR PURPOSE.  See the\nGNU Affero General Public License for more details.\n\nYou should have received a copy of the GNU Affero General Public License\nalong with this program.  If not, see <https://www.gnu.org/licenses/>.\n";

/// The MIT licence text, with `{year}` and `{author}` left to fill.
pub const MIT_LICENSE: &'static str = "MIT License\n\nCopyright (c) {year} {author}\n\nPermission is hereby granted, free of charge, to any person obtaining a copy\nof this software and associated documentation files (the \"Software\"), to deal\nin the Software without restriction, including without limitation the rights\nto use, copy, modify, merge, publish, distribute, sublicense, and/or sell\ncopies of the Software, and to permit persons to whom the Software is\nfurnished to do so, subject to the following conditions:\n\nThe above copyright notice and this permission notice shall be included in all\ncopies or substantial portions of the Software.\n\nTHE SOFTWARE IS PROVIDED \"AS IS\", WITHOUT WARRANTY OF ANY KIND, EXPRESS OR\nIMPLIED, INCLUDING BUT NOT LIMITED TO THE WARRANTIES OF MERCHANTABILITY,\nFITNESS FOR A PARTICULAR PURPOSE AND NONINFRINGEMENT. IN NO EVENT SHALL THE\nAUTHORS OR COPYRIGHT HOLDERS BE LIABLE FOR ANY CLAIM, DAMAGES OR OTHER\nLIABILITY, WHETHER IN AN ACTION OF CONTRACT, TORT OR OTHERWISE, ARISING FROM,\nOUT OF OR IN CONNECTION WITH THE SOFTWARE OR THE USE OR OTHER DEALINGS IN THE\nSOFTWARE.\n";

/// The opening of the Apache-2.0 licence text.
pub const APACHE_LICENSE: &'static str = "Apache License\nVersion 2.0, January 2004\nhttp://www.apache.org/licenses/\n\nTERMS AND CONDITIONS FOR USE, REPRODUCTION, AND DISTRIBUTION\n\n1. Definitions.\n\n\"License\" shall mean the terms and conditions for use, reproduction, and distribution as defined by Sections 1 through 9 of this document.\n\n\"Licensor\" shall mean the copyright owner or entity authorized by the copyright owner that is granting the License.\n\n\"Legal Entity\" shall mean the union of the acting entity and all other entities that control, are controlled by, or are under common control with that entity. For the purposes of this definition, \"control\" means (i) the power, direct or indirect, to cause the direction or management of such entity, whether by contract or otherwise, or (ii) ownership of fifty percent (50%) or more of the outstanding shares, or (iii) beneficial ownership of such entity.\n\n\"You\" (or \"Your\") shall mean an individual or Legal Entity exercising permissions granted by this License.\n\n\"Source\" form shall mean the preferred form for making modifications, including but not limited to software source code, documentation source, and configuration files.\n\n\"Object\" form shall mean any form resulting from mechanical transformation or translation of a Source form, including but not limited to compiled object code, generated documentation, and conversions to other media types.\n\n\"Work\" shall mean the work of authorship, whether in Source or Object form, made available under the License, as indicated by a copyright notice that is included in or attached to the work (an example is provided in the Appendix below).\n\n\"Derivative Works\" shall mean any work, whether in Source or Object form, that is based on (or derived from) the Work and for which the editorial revisions, annotations, elaborations, or other modifications represent, as a whole, an original work of authorship. For the purposes of this License, Derivative Works shall not include works that remain separable from, or merely link (or bind by name) to the interfaces of, the Work and Derivative Works thereof.\n\n\"Contribution\" shall mean any work of authorship, including the original version of the Work and any modifications or additions to that Work or Derivative Works thereof, that is intentionally submitted to Licensor for inclusion in the Work by the copyright owner or by an individual or Legal Entity authorized to submit on behalf of the copyright owner. For the purposes of this definition, \"submitted\" means any form of electronic, verbal, or written communication sent to the Licensor or its representatives, including but not limited to communication on electronic mailing lists, source code control systems, and issue tracking systems that are managed by, or on behalf of, the Licensor for the purpose of discussing and improving the Work, but excluding communication that is conspicuously marked or otherwise designated in writing by the copyright owner as \"Not a Contribution.\"\n\n\"Contributor\" shall mean Licensor and any individual or Legal Entity on behalf of whom a Contribution has been received by Licensor and subsequently incorporated within the Work.\n";

/// The crate name for a plugin id: dots become dashes, then lower case.
pub open spec fn crate_name_text(id: Seq<char>) -> Seq<char> {
    unicode_lowercase(replace_char(id, '.', '-'))
}

fn crate_name_of(id: &str) -> (s: String)
    ensures
        s@ == crate_name_text(id@),
{
    let dashed = replace_char_exec(id, '.', '-');
    to_lowercase(dashed.as_str())
}

/// The README's sentence about a plugin type.
pub open spec fn type_sentence(p: PluginType) -> Seq<char> {
    match p {
        PluginType::Effect => "Effect plugins apply stateless transformations to the canvas."@,
        PluginType::Tool => "Tool plugins are stateful interactive tools."@,
    }
}

fn type_sentence_str(p: &PluginType) -> (s: &'static str)
    ensures
        s@ == type_sentence(*p),
{
    match p {
        PluginType::Effect => "Effect plugins apply stateless transformations to the canvas.",
        PluginType::Tool => "Tool plugins are stateful interactive tools.",
    }
}

/// The README's author e-mail part: `<` and the address, or nothing.
pub open spec fn email_part(e: Option<String>) -> Seq<char> {
    match e {
        Some(a) => "<"@ + a@,
        None => Seq::empty(),
    }
}

fn email_part_of(e: &Option<String>) -> (s: String)
    ensures
        s@ == email_part(*e),
{
    match e {
        Some(a) => {
            let mut s = String::from_str("<");
            s.append(a.as_str());
            s
        },
        None => String::new(),
    }
}

/// The `Cargo.toml` of a Rust plugin: the crate name is the id with dots made
/// dashes, lower-cased.
pub open spec fn cargo_toml_text(c: WizardConfig) -> Seq<char> {
    "[package]\n\nname = \""@
        + crate_name_text(c.id@)
        + "\"\nversion = \""@
        + c.version@
        + "\"\nedition = \"2021\"\nlicense = \""@
        + c.license@
        + "\"\n\n\n[dependencies]\npaint-type-plugins = { path = \"../../..\" }\n\n\n[lib]\ncrate-type = [\"cdylib\"]\n\n\n[profile.release]\nopt-level = \"s\"\nstrip = true\n"@
}

/// The `Cargo.toml` of a Rust plugin: the crate name is the id with dots made
/// dashes, lower-cased.
pub fn generate_cargo_toml(config: &WizardConfig) -> (s: String)
    ensures
        s@ == cargo_toml_text(*config),
{
    let crate_name = crate_name_of(config.id.as_str());
    let mut s = String::from_str("[package]\n\nname = \"");
    s.append(crate_name.as_str());
    s.append("\"\nversion = \"");
    s.append(config.version.as_str());
    s.append("\"\nedition = \"2021\"\nlicense = \"");
    s.append(config.license.as_str());
    s.append("\"\n\n\n[dependencies]\npaint-type-plugins = { path = \"../../..\" }\n\n\n[lib]\ncrate-type = [\"cdylib\"]\n\n\n[profile.release]\nopt-level = \"s\"\nstrip = true\n");
    s
}

/// The `lib.rs` scaffold of a Rust effect plugin.
pub open spec fn effect_lib_text(c: WizardConfig) -> Seq<char> {
    "// SPDX-License-Identifier: "@
        + c.license@
        + "\n\n// paint.type "@
        + plugin_type_word(c.plugin_type)
        + " Plugin\n// Generated by plugin-wizard\n\nuse paint_type_plugins::{error::PluginResult, manifest::{PluginCapability, PluginId, PluginManifest, PluginType}, effect::{EffectConfig, EffectPlugin, EffectType, WasmEffectPlugin}};\n\n/// Plugin ID\nconst PLUGIN_ID: &str = \""@
        + c.id@
        + "\";\n\n/// Plugin manifest\nfn get_manifest() -> PluginManifest {\n    PluginManifest {\n        id: PluginId::new(PLUGIN_ID.to_string()),\n        version: paint_type_plugins::manifest::PluginVersion::new(0, 1, 0),\n        name: \""@
        + c.name@
        + "\".to_string(),\n        description: \""@
        + c.description@
        + "\".to_string(),\n        long_description: None,\n        author: \""@
        + c.author@
        + "\".to_string(),\n        author_email: None,\n        plugin_type: PluginType::Effect,\n        api_version: paint_type_plugins::manifest::PluginVersion::MIN_API_VERSION,\n        capabilities: vec!["@
        + variant_list(c.capabilities@)
        + "],\n        wasm_entry: \"_start\".to_string(),\n        icon: None,\n        homepage: None,\n        license: \""@
        + c.license@
        + "\".to_string(),\n        tags: vec!["@
        + quoted_list(texts_of(c.tags@))
        + "],\n    }\n}\n\n/// Main effect plugin struct\npub struct "@
        + camel_case(c.name@)
        + "EffectPlugin;\n\nimpl EffectPlugin for "@
        + camel_case(c.name@)
        + "EffectPlugin {\n    fn apply(&self, input: &[u8], width: u32, height: u32) -> PluginResult<Vec<u8>> {\n        // TODO: Implement your effect here\n        // For now, return the input unchanged\n        Ok(input.to_vec())\n    }\n\n    fn id(&self) -> &PluginId {\n        &get_manifest().id\n    }\n\n    fn name(&self) -> &str {\n        &get_manifest().name\n    }\n\n    fn description(&self) -> &str {\n        &get_manifest().description\n    }\n\n    fn required_capabilities(&self) -> &[PluginCapability] {\n        &get_manifest().capabilities\n    }\n}\n"@
}

/// The `lib.rs` scaffold of a Rust effect plugin.
pub fn generate_rust_effect_lib(config: &WizardConfig) -> (s: String)
    ensures
        s@ == effect_lib_text(*config),
{
    let type_word = plugin_type_to_str(&config.plugin_type);
    let caps = format_capabilities(&config.capabilities);
    let tags = format_tags(&config.tags);
    let camel = to_camel_case(config.name.as_str());
    let mut s = String::from_str("// SPDX-License-Identifier: ");
    s.append(config.license.as_str());
    s.append("\n\n// paint.type ");
    s.append(type_word);
    s.append(" Plugin\n// Generated by plugin-wizard\n\nuse paint_type_plugins::{error::PluginResult, manifest::{PluginCapability, PluginId, PluginManifest, PluginType}, effect::{EffectConfig, EffectPlugin, EffectType, WasmEffectPlugin}};\n\n/// Plugin ID\nconst PLUGIN_ID: &str = \"");
    s.append(config.id.as_str());
    s.append("\";\n\n/// Plugin manifest\nfn get_manifest() -> PluginManifest {\n    PluginManifest {\n        id: PluginId::new(PLUGIN_ID.to_string()),\n        version: paint_type_plugins::manifest::PluginVersion::new(0, 1, 0),\n        name: \"");
    s.append(config.name.as_str());
    s.append("\".to_string(),\n        description: \"");
    s.append(config.description.as_str());
    s.append("\".to_string(),\n        long_description: None,\n        author: \"");
    s.append(config.author.as_str());
    s.append("\".to_string(),\n        author_email: None,\n        plugin_type: PluginType::Effect,\n        api_version: paint_type_plugins::manifest::PluginVersion::MIN_API_VERSION,\n        capabilities: vec![");
    s.append(caps.as_str());
    s.append("],\n        wasm_entry: \"_start\".to_string(),\n        icon: None,\n        homepage: None,\n        license: \"");
    s.append(config.license.as_str());
    s.append("\".to_string(),\n        tags: vec![");
    s.append(tags.as_str());
    s.append("],\n    }\n}\n\n/// Main effect plugin struct\npub struct ");
    s.append(camel.as_str());
    s.append("EffectPlugin;\n\nimpl EffectPlugin for ");
    s.append(camel.as_str());
    s.append("EffectPlugin {\n    fn apply(&self, input: &[u8], width: u32, height: u32) -> PluginResult<Vec<u8>> {\n        // TODO: Implement your effect here\n        // For now, return the input unchanged\n        Ok(input.to_vec())\n    }\n\n    fn id(&self) -> &PluginId {\n        &get_manifest().id\n    }\n\n    fn name(&self) -> &str {\n        &get_manifest().name\n    }\n\n    fn description(&self) -> &str {\n        &get_manifest().description\n    }\n\n    fn required_capabilities(&self) -> &[PluginCapability] {\n        &get_manifest().capabilities\n    }\n}\n");
    s
}

/// The `lib.rs` scaffold of a Rust tool plugin.
pub open spec fn tool_lib_text(c: WizardConfig) -> Seq<char> {
    "// SPDX-License-Identifier: "@
        + c.license@
        + "\n\n// paint.type "@
        + plugin_type_word(c.plugin_type)
        + " Plugin\n// Generated by plugin-wizard\n\nuse paint_type_plugins::{error::PluginResult, manifest::{PluginCapability, PluginId, PluginManifest, PluginType}, tool::{ToolConfig, ToolPlugin, ToolResponse, ToolState, WasmToolPlugin}};\n\n/// Plugin ID\nconst PLUGIN_ID: &str = \""@
        + c.id@
        + "\";\n\n/// Plugin manifest\nfn get_manifest() -> PluginManifest {\n    PluginManifest {\n        id: PluginId::new(PLUGIN_ID.to_string()),\n        version: paint_type_plugins::manifest::PluginVersion::new(0, 1, 0),\n        name: \""@
        + c.name@
        + "\".to_string(),\n        description: \""@
        + c.description@
        + "\".to_string(),\n        long_description: None,\n        author: \""@
        + c.author@
        + "\".to_string(),\n        author_email: None,\n        plugin_type: PluginType::Tool,\n        api_version: paint_type_plugins::manifest::PluginVersion::MIN_API_VERSION,\n        capabilities: vec!["@
        + variant_list(c.capabilities@)
        + "],\n        wasm_entry: \"_start\".to_string(),\n        icon: None,\n        homepage: None,\n        license: \""@
        + quoted_list(texts_of(c.tags@))
        + "\".to_string(),\n        tags: vec!["@
        + camel_case(c.name@)
        + "],\n    }\n}\n\n/// Main tool plugin struct\npub struct "@
        + camel_case(c.name@)
        + "ToolPlugin {\n    state: ToolState,\n}\n\nimpl Default for "@
        + camel_case(c.name@)
        + "ToolPlugin {\n    fn default() -> Self {\n        Self {\n            state: ToolState::new(),\n        }\n    }\n}\n\nimpl ToolPlugin for "@
        + c.name@
        + "ToolPlugin {\n    fn handle_event(&mut self, event: ToolEvent, state: &mut ToolState) -> PluginResult<ToolResponse> {\n        // TODO: Implement your tool event handling here\n        match event {\n            ToolEvent::PointerDown { x, y } => {\n                state.x = x;\n                state.y = y;\n                state.is_active = true;\n                Ok(ToolResponse::new().with_status(\"Pointer down\"))\n            }\n            ToolEvent::PointerMove { x, y, pressure } => {\n                state.x = x;\n                state.y = y;\n                state.pressure = pressure;\n                Ok(ToolResponse::new().with_status(\"Pointer move\"))\n            }\n            ToolEvent::PointerUp { x, y } => {\n                state.x = x;\n                state.y = y;\n                state.is_active = false;\n                Ok(ToolResponse::new().with_status(\"Pointer up\"))\n            }\n            ToolEvent::Cancel => {\n                state.is_active = false;\n                state.reset();\n                Ok(ToolResponse::new().with_status(\"Cancelled\"))\n            }\n            ToolEvent::ConfigChanged => {\n                Ok(ToolResponse::new().with_status(\"Config changed\"))\n            }\n        }\n    }\n\n    fn finalize(&mut self, state: &mut ToolState) -> PluginResult<ToolResponse> {\n        state.reset();\n        Ok(ToolResponse::new())\n    }\n\n    fn id(&self) -> &PluginId {\n        &get_manifest().id\n    }\n\n    fn name(&self) -> &str {\n        &get_manifest().name\n    }\n\n    fn description(&self) -> &str {\n        &get_manifest().description\n    }\n\n    fn config(&self) -> &ToolConfig {\n        // TODO: Return your tool configuration\n        static CONFIG: once_cell::sync::OnceCell<ToolConfig> = once_cell::sync::OnceCell::new();\n        CONFIG.get_or_init(|| {\n            let mut config = ToolConfig::new(\""@
        + c.name@
        + "\");\n            // Add your tool options here\n            config\n        })\n    }\n\n    fn required_capabilities(&self) -> &[PluginCapability] {\n        &get_manifest().capabilities\n    }\n}\n"@
}

/// The `lib.rs` scaffold of a Rust tool plugin.
pub fn generate_rust_tool_lib(config: &WizardConfig) -> (s: String)
    ensures
        s@ == tool_lib_text(*config),
{
    let type_word = plugin_type_to_str(&config.plugin_type);
    let caps = format_capabilities(&config.capabilities);
    let tags = format_tags(&config.tags);
    let camel = to_camel_case(config.name.as_str());
    let mut s = String::from_str("// SPDX-License-Identifier: ");
    s.append(config.license.as_str());
    s.append("\n\n// paint.type ");
    s.append(type_word);
    s.append(" Plugin\n// Generated by plugin-wizard\n\nuse paint_type_plugins::{error::PluginResult, manifest::{PluginCapability, PluginId, PluginManifest, PluginType}, tool::{ToolConfig, ToolPlugin, ToolResponse, ToolState, WasmToolPlugin}};\n\n/// Plugin ID\nconst PLUGIN_ID: &str = \"");
    s.append(config.id.as_str());
    s.append("\";\n\n/// Plugin manifest\nfn get_manifest() -> PluginManifest {\n    PluginManifest {\n        id: PluginId::new(PLUGIN_ID.to_string()),\n        version: paint_type_plugins::manifest::PluginVersion::new(0, 1, 0),\n        name: \"");
    s.append(config.name.as_str());
    s.append("\".to_string(),\n        description: \"");
    s.append(config.description.as_str());
    s.append("\".to_string(),\n        long_description: None,\n        author: \"");
    s.append(config.author.as_str());
    s.append("\".to_string(),\n        author_email: None,\n        plugin_type: PluginType::Tool,\n        api_version: paint_type_plugins::manifest::PluginVersion::MIN_API_VERSION,\n        capabilities: vec![");
    s.append(caps.as_str());
    s.append("],\n        wasm_entry: \"_start\".to_string(),\n        icon: None,\n        homepage: None,\n        license: \"");
    s.append(tags.as_str());
    s.append("\".to_string(),\n        tags: vec![");
    s.append(camel.as_str());
    s.append("],\n    }\n}\n\n/// Main tool plugin struct\npub struct ");
    s.append(camel.as_str());
    s.append("ToolPlugin {\n    state: ToolState,\n}\n\nimpl Default for ");
    s.append(camel.as_str());
    s.append("ToolPlugin {\n    fn default() -> Self {\n        Self {\n            state: ToolState::new(),\n        }\n    }\n}\n\nimpl ToolPlugin for ");
    s.append(config.name.as_str());
    s.append("ToolPlugin {\n    fn handle_event(&mut self, event: ToolEvent, state: &mut ToolState) -> PluginResult<ToolResponse> {\n        // TODO: Implement your tool event handling here\n        match event {\n            ToolEvent::PointerDown { x, y } => {\n                state.x = x;\n                state.y = y;\n                state.is_active = true;\n                Ok(ToolResponse::new().with_status(\"Pointer down\"))\n            }\n            ToolEvent::PointerMove { x, y, pressure } => {\n                state.x = x;\n                state.y = y;\n                state.pressure = pressure;\n                Ok(ToolResponse::new().with_status(\"Pointer move\"))\n            }\n            ToolEvent::PointerUp { x, y } => {\n                state.x = x;\n                state.y = y;\n                state.is_active = false;\n                Ok(ToolResponse::new().with_status(\"Pointer up\"))\n            }\n            ToolEvent::Cancel => {\n                state.is_active = false;\n                state.reset();\n                Ok(ToolResponse::new().with_status(\"Cancelled\"))\n            }\n            ToolEvent::ConfigChanged => {\n                Ok(ToolResponse::new().with_status(\"Config changed\"))\n            }\n        }\n    }\n\n    fn finalize(&mut self, state: &mut ToolState) -> PluginResult<ToolResponse> {\n        state.reset();\n        Ok(ToolResponse::new())\n    }\n\n    fn id(&self) -> &PluginId {\n        &get_manifest().id\n    }\n\n    fn name(&self) -> &str {\n        &get_manifest().name\n    }\n\n    fn description(&self) -> &str {\n        &get_manifest().description\n    }\n\n    fn config(&self) -> &ToolConfig {\n        // TODO: Return your tool configuration\n        static CONFIG: once_cell::sync::OnceCell<ToolConfig> = once_cell::sync::OnceCell::new();\n        CONFIG.get_or_init(|| {\n            let mut config = ToolConfig::new(\"");
    s.append(config.name.as_str());
    s.append("\");\n            // Add your tool options here\n            config\n        })\n    }\n\n    fn required_capabilities(&self) -> &[PluginCapability] {\n        &get_manifest().capabilities\n    }\n}\n");
    s
}

/// The AsciiDoc README of a plugin.
pub open spec fn readme_text(c: WizardConfig) -> Seq<char> {
    "= "@
        + c.name@
        + " Plugin\n\n:description: "@
        + c.description@
        + "\n:spdx-license-identifier: "@
        + c.license@
        + "\n\n== Overview\n\nThis is a "@
        + plugin_type_word(c.plugin_type)
        + " plugin for paint.type.\n\n== Plugin Type\n\n"@
        + type_sentence(c.plugin_type)
        + "\n\n== Author\n\n"@
        + c.author@
        + "\n"@
        + email_part(c.author_email)
        + "\n\n== Usage\n\n// TODO: Add usage instructions\n\n== License\n\n"@
        + c.license@
        + "\n"@
}

/// The AsciiDoc README of a plugin.
pub fn generate_readme(config: &WizardConfig) -> (s: String)
    ensures
        s@ == readme_text(*config),
{
    let type_word = plugin_type_to_str(&config.plugin_type);
    let sentence = type_sentence_str(&config.plugin_type);
    let email = email_part_of(&config.author_email);
    let mut s = String::from_str("= ");
    s.append(config.name.as_str());
    s.append(" Plugin\n\n:description: ");
    s.append(config.description.as_str());
    s.append("\n:spdx-license-identifier: ");
    s.append(config.license.as_str());
    s.append("\n\n== Overview\n\nThis is a ");
    s.append(type_word);
    s.append(" plugin for paint.type.\n\n== Plugin Type\n\n");
    s.append(sentence);
    s.append("\n\n== Author\n\n");
    s.append(config.author.as_str());
    s.append("\n");
    s.append(email.as_str());
    s.append("\n\n== Usage\n\n// TODO: Add usage instructions\n\n== License\n\n");
    s.append(config.license.as_str());
    s.append("\n");
    s
}

/// The `.gitignore` written into a new plugin.
pub fn generate_gitignore() -> (s: String)
    ensures
        s@ == GITIGNORE@,
{
    GITIGNORE.to_owned()
}

/// The licence file for an SPDX identifier: the known texts for
/// AGPL-3.0-or-later, MIT and Apache-2.0, else a pointer to the identifier.
pub open spec fn license_text(spdx: Seq<char>) -> Seq<char> {
    if spdx == "AGPL-3.0-or-later"@ {
        AGPL_LICENSE@
    } else if spdx == "MIT"@ {
        MIT_LICENSE@
    } else if spdx == "Apache-2.0"@ {
        APACHE_LICENSE@
    } else {
        "SPDX-License-Identifier: "@ + spdx + "\n\nLicense text: See "@ + spdx + "\n"@
    }
}

/// The licence file for an SPDX identifier.
pub fn generate_license(spdx: &str) -> (s: String)
    ensures
        s@ == license_text(spdx@),
{
    if crate::text::str_equal(spdx, "AGPL-3.0-or-later") {
        AGPL_LICENSE.to_owned()
    } else if crate::text::str_equal(spdx, "MIT") {
        MIT_LICENSE.to_owned()
    } else if crate::text::str_equal(spdx, "Apache-2.0") {
        APACHE_LICENSE.to_owned()
    } else {
        let mut s = String::from_str("SPDX-License-Identifier: ");
        s.append(spdx);
        s.append("\n\nLicense text: See ");
        s.append(spdx);
        s.append("\n");
        s
    }
}


/// The files of a new plugin, by path relative to its directory, in the
/// order they are written: the manifest, the minter configuration when
/// asked for, the Rust crate with its README for a Rust plugin, then
/// `.gitignore` and the licence.
pub open spec fn scaffold_files(c: WizardConfig) -> Seq<(Seq<char>, Seq<char>)> {
    seq![("plugin.toml"@, plugin_toml(c))] + (if c.create_minter {
        seq![("minter.toml"@, minter_toml(c))]
    } else {
        Seq::empty()
    }) + (if c.language == PluginLanguage::Rust {
        seq![
            ("Cargo.toml"@, cargo_toml_text(c)),
            (
                "src/lib.rs"@,
                match c.plugin_type {
                    PluginType::Effect => effect_lib_text(c),
                    PluginType::Tool => tool_lib_text(c),
                },
            ),
            ("README.adoc"@, readme_text(c)),
        ]
    } else {
        Seq::empty()
    }) + seq![(".gitignore"@, GITIGNORE@), ("LICENSE"@, license_text(c.license@))]
}

/// The pairs of texts of a list of path and content strings.
pub open spec fn file_texts(v: Seq<(String, String)>) -> Seq<(Seq<char>, Seq<char>)> {
    Seq::new(v.len(), |i: int| (v[i].0@, v[i].1@))
}

fn push_file(files: &mut Vec<(String, String)>, path: &str, content: String)
    ensures
        file_texts(final(files)@) == file_texts(old(files)@).push((path@, content@)),
{
    files.push((path.to_owned(), content));
    assert(file_texts(files@) =~= file_texts(old(files)@).push((path@, content@)));
}

/// The files to write for a new plugin, with their contents.
pub fn scaffold_plan(config: &WizardConfig) -> (files: Vec<(String, String)>)
    ensures
        file_texts(files@) == scaffold_files(*config),
{
    let mut files: Vec<(String, String)> = Vec::new();
    push_file(&mut files, "plugin.toml", generate_plugin_toml(config));
    if config.create_minter {
        push_file(&mut files, "minter.toml", generate_minter_toml(config));
    }
    if config.language == PluginLanguage::Rust {
        push_file(&mut files, "Cargo.toml", generate_cargo_toml(config));
        let lib = match config.plugin_type {
            PluginType::Effect => generate_rust_effect_lib(config),
            PluginType::Tool => generate_rust_tool_lib(config),
        };
        push_file(&mut files, "src/lib.rs", lib);
        push_file(&mut files, "README.adoc", generate_readme(config));
    }
    push_file(&mut files, ".gitignore", generate_gitignore());
    push_file(&mut files, "LICENSE", generate_license(config.license.as_str()));
    assert(file_texts(files@) =~= scaffold_files(*config));
    files
}

} // verus!
