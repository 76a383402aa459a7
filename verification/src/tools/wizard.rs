//! The plugin wizard's configuration and the manifests it renders.

use vstd::prelude::*;
use crate::text::chars_of;

verus! {

/// Plugin type of a new plugin.
#[derive(Clone, Copy, Debug, PartialEq, Eq, Structural)]
pub enum PluginType {
    /// Stateless transformations.
    Effect,
    /// Stateful interactive tools.
    Tool,
}

/// Implementation language of a new plugin.
#[derive(Clone, Copy, Debug, PartialEq, Eq, Structural)]
pub enum PluginLanguage {
    Rust,
    Zig,
    Idris2,
    TypeScript,
}

/// A capability a new plugin may request.
#[derive(Clone, Copy, Debug, PartialEq, Eq, Structural)]
pub enum PluginCapability {
    CanvasRead,
    CanvasWrite,
    LayerAccess,
    SelectionAccess,
    FileAccess,
    NetworkAccess,
    UserInterface,
    PersistentStorage,
}

/// The wire name of a plugin type.
pub open spec fn plugin_type_word(p: PluginType) -> Seq<char> {
    match p {
        PluginType::Effect => "effect"@,
        PluginType::Tool => "tool"@,
    }
}

/// The wire name of a capability.
pub open spec fn capability_key(c: PluginCapability) -> Seq<char> {
    match c {
        PluginCapability::CanvasRead => "canvas_read"@,
        PluginCapability::CanvasWrite => "canvas_write"@,
        PluginCapability::LayerAccess => "layer_access"@,
        PluginCapability::SelectionAccess => "selection_access"@,
        PluginCapability::FileAccess => "file_access"@,
        PluginCapability::NetworkAccess => "network_access"@,
        PluginCapability::UserInterface => "user_interface"@,
        PluginCapability::PersistentStorage => "persistent_storage"@,
    }
}

/// The Rust variant name of a capability.
pub open spec fn capability_variant(c: PluginCapability) -> Seq<char> {
    match c {
        PluginCapability::CanvasRead => "CanvasRead"@,
        PluginCapability::CanvasWrite => "CanvasWrite"@,
        PluginCapability::LayerAccess => "LayerAccess"@,
        PluginCapability::SelectionAccess => "SelectionAccess"@,
        PluginCapability::FileAccess => "FileAccess"@,
        PluginCapability::NetworkAccess => "NetworkAccess"@,
        PluginCapability::UserInterface => "UserInterface"@,
        PluginCapability::PersistentStorage => "PersistentStorage"@,
    }
}

impl PluginType {
    /// `effect` or `tool`.
    pub fn to_display_string(&self) -> (s: String)
        ensures
            s@ == plugin_type_word(*self),
    {
        plugin_type_to_str(self).to_owned()
    }
}

impl PluginLanguage {
    /// The lower-case language name.
    pub fn to_display_string(&self) -> (s: String)
        ensures
            s@ == match *self {
                PluginLanguage::Rust => "rust"@,
                PluginLanguage::Zig => "zig"@,
                PluginLanguage::Idris2 => "idris2"@,
                PluginLanguage::TypeScript => "typescript"@,
            },
    {
        match self {
            PluginLanguage::Rust => "rust".to_owned(),
            PluginLanguage::Zig => "zig".to_owned(),
            PluginLanguage::Idris2 => "idris2".to_owned(),
            PluginLanguage::TypeScript => "typescript".to_owned(),
        }
    }
}

impl PluginCapability {
    /// The human-readable capability name.
    pub fn to_display_string(&self) -> (s: String)
        ensures
            s@ == match *self {
                PluginCapability::CanvasRead => "Canvas Read"@,
                PluginCapability::CanvasWrite => "Canvas Write"@,
                PluginCapability::LayerAccess => "Layer Access"@,
                PluginCapability::SelectionAccess => "Selection Access"@,
                PluginCapability::FileAccess => "File Access"@,
                PluginCapability::NetworkAccess => "Network Access"@,
                PluginCapability::UserInterface => "User Interface"@,
                PluginCapability::PersistentStorage => "Persistent Storage"@,
            },
    {
        match self {
            PluginCapability::CanvasRead => "Canvas Read".to_owned(),
            PluginCapability::CanvasWrite => "Canvas Write".to_owned(),
            PluginCapability::LayerAccess => "Layer Access".to_owned(),
            PluginCapability::SelectionAccess => "Selection Access".to_owned(),
            PluginCapability::FileAccess => "File Access".to_owned(),
            PluginCapability::NetworkAccess => "Network Access".to_owned(),
            PluginCapability::UserInterface => "User Interface".to_owned(),
            PluginCapability::PersistentStorage => "Persistent Storage".to_owned(),
        }
    }
}

/// The configuration the wizard collects.
#[derive(Clone, Debug)]
pub struct WizardConfig {
    pub plugin_type: PluginType,
    pub language: PluginLanguage,
    pub id: String,
    pub version: String,
    pub name: String,
    pub description: String,
    pub long_description: Option<String>,
    pub author: String,
    pub author_email: Option<String>,
    pub wasm_entry: String,
    pub license: String,
    pub homepage: Option<String>,
    pub icon: Option<String>,
    pub capabilities: Vec<PluginCapability>,
    pub tags: Vec<String>,
    /// Output directory path.
    pub output_dir: String,
    /// Whether to write a minter configuration too.
    pub create_minter: bool,
}

impl Default for WizardConfig {
    /// An effect plugin in Rust, version 0.1.0, entry `_start`, licence
    /// AGPL-3.0-or-later, everything else empty, minter config on.
    fn default() -> (c: WizardConfig)
        ensures
            c.plugin_type == PluginType::Effect,
            c.language == PluginLanguage::Rust,
            c.id@ == Seq::<char>::empty(),
            c.version@ == "0.1.0"@,
            c.name@ == Seq::<char>::empty(),
            c.description@ == Seq::<char>::empty(),
            c.long_description is None,
            c.author@ == Seq::<char>::empty(),
            c.author_email is None,
            c.wasm_entry@ == "_start"@,
            c.license@ == "AGPL-3.0-or-later"@,
            c.homepage is None,
            c.icon is None,
            c.capabilities@.len() == 0,
            c.tags@.len() == 0,
            c.output_dir@ == Seq::<char>::empty(),
            c.create_minter,
    {
        WizardConfig {
            plugin_type: PluginType::Effect,
            language: PluginLanguage::Rust,
            id: String::new(),
            version: "0.1.0".to_owned(),
            name: String::new(),
            description: String::new(),
            long_description: None,
            author: String::new(),
            author_email: None,
            wasm_entry: "_start".to_owned(),
            license: "AGPL-3.0-or-later".to_owned(),
            homepage: None,
            icon: None,
            capabilities: Vec::new(),
            tags: Vec::new(),
            output_dir: String::new(),
            create_minter: true,
        }
    }
}

/// Check a plugin id: non-empty, in reverse domain notation, and not
/// starting or ending with a dot.
pub fn validate_id(id: &str) -> (r: Result<(), String>)
    ensures
        id@.len() == 0 ==> (r matches Err(m) && m@ == "Plugin ID cannot be empty"@),
        id@.len() > 0 && !id@.contains('.') ==> (r matches Err(m) && m@
            == "Plugin ID must be in reverse domain notation (e.g., com.example.plugin)"@),
        id@.len() > 0 && id@.contains('.') && (id@[0] == '.' || id@.last() == '.') ==> (r matches Err(m)
            && m@ == "Plugin ID cannot start or end with a dot"@),
        id@.len() > 0 && id@.contains('.') && id@[0] != '.' && id@.last() != '.' ==> r is Ok,
{
    let v = chars_of(id);
    if v.len() == 0 {
        return Err("Plugin ID cannot be empty".to_owned());
    }
    let mut found = false;
    let mut i: usize = 0;
    while i < v.len()
        invariant
            i <= v@.len(),
            v@ == id@,
            found == (exists|j: int| 0 <= j < i && v@[j] == '.'),
        decreases v@.len() - i,
    {
        if v[i] == '.' {
            found = true;
        }
        i += 1;
    }
    if !found {
        return Err("Plugin ID must be in reverse domain notation (e.g., com.example.plugin)".to_owned());
    }
    if v[0] == '.' || v[v.len() - 1] == '.' {
        return Err("Plugin ID cannot start or end with a dot".to_owned());
    }
    Ok(())
}

/// Check a plugin name: non-empty.
pub fn validate_name(name: &str) -> (r: Result<(), String>)
    ensures
        name@.len() == 0 ==> (r matches Err(m) && m@ == "Plugin name cannot be empty"@),
        name@.len() > 0 ==> r is Ok,
{
    if name.unicode_len() == 0 {
        return Err("Plugin name cannot be empty".to_owned());
    }
    Ok(())
}

/// The wire name of a plugin type.
pub fn plugin_type_to_str(p: &PluginType) -> (s: &'static str)
    ensures
        s@ == plugin_type_word(*p),
{
    match p {
        PluginType::Effect => "effect",
        PluginType::Tool => "tool",
    }
}

/// The wire name of a capability.
pub fn capability_to_str(c: &PluginCapability) -> (s: &'static str)
    ensures
        s@ == capability_key(*c),
{
    match c {
        PluginCapability::CanvasRead => "canvas_read",
        PluginCapability::CanvasWrite => "canvas_write",
        PluginCapability::LayerAccess => "layer_access",
        PluginCapability::SelectionAccess => "selection_access",
        PluginCapability::FileAccess => "file_access",
        PluginCapability::NetworkAccess => "network_access",
        PluginCapability::UserInterface => "user_interface",
        PluginCapability::PersistentStorage => "persistent_storage",
    }
}

fn capability_variant_str(c: &PluginCapability) -> (s: &'static str)
    ensures
        s@ == capability_variant(*c),
{
    match c {
        PluginCapability::CanvasRead => "CanvasRead",
        PluginCapability::CanvasWrite => "CanvasWrite",
        PluginCapability::LayerAccess => "LayerAccess",
        PluginCapability::SelectionAccess => "SelectionAccess",
        PluginCapability::FileAccess => "FileAccess",
        PluginCapability::NetworkAccess => "NetworkAccess",
        PluginCapability::UserInterface => "UserInterface",
        PluginCapability::PersistentStorage => "PersistentStorage",
    }
}

//==============================================================================
// Rendering
//==============================================================================

/// `"a", "b", ...`: the tags quoted and separated by `, `.
pub open spec fn quoted_list(tags: Seq<Seq<char>>) -> Seq<char>
    decreases tags.len(),
{
    if tags.len() == 0 {
        Seq::empty()
    } else if tags.len() == 1 {
        "\""@ + tags[0] + "\""@
    } else {
        quoted_list(tags.drop_last()) + ", "@ + "\""@ + tags.last() + "\""@
    }
}

/// `PluginCapability::A, PluginCapability::B, ...`.
pub open spec fn variant_list(caps: Seq<PluginCapability>) -> Seq<char>
    decreases caps.len(),
{
    if caps.len() == 0 {
        Seq::empty()
    } else if caps.len() == 1 {
        "PluginCapability::"@ + capability_variant(caps[0])
    } else {
        variant_list(caps.drop_last()) + ", "@ + "PluginCapability::"@ + capability_variant(
            caps.last(),
        )
    }
}

/// One `  <key> = true` line per capability.
pub open spec fn capability_lines(caps: Seq<PluginCapability>) -> Seq<char>
    decreases caps.len(),
{
    if caps.len() == 0 {
        Seq::empty()
    } else {
        capability_lines(caps.drop_last()) + "  "@ + capability_key(caps.last()) + " = true\n"@
    }
}

pub open spec fn texts_of(v: Seq<String>) -> Seq<Seq<char>> {
    Seq::new(v.len(), |i: int| v[i]@)
}

/// The tags of a configuration quoted and separated by `, `.
pub fn format_tags(tags: &Vec<String>) -> (s: String)
    ensures
        s@ == quoted_list(texts_of(tags@)),
{
    let mut s = String::new();
    let mut i: usize = 0;
    while i < tags.len()
        invariant
            i <= tags@.len(),
            s@ == quoted_list(texts_of(tags@).take(i as int)),
        decreases tags@.len() - i,
    {
        if i > 0 {
            s.append(", ");
        }
        s.append("\"");
        s.append(tags[i].as_str());
        s.append("\"");
        proof {
            assert(texts_of(tags@).take(i + 1).drop_last() =~= texts_of(tags@).take(i as int));
            if i == 0 {
                assert(s@ =~= quoted_list(texts_of(tags@).take(1)));
            }
        }
        i += 1;
    }
    assert(texts_of(tags@).take(tags@.len() as int) =~= texts_of(tags@));
    s
}

/// The capabilities as Rust expressions separated by `, `.
pub fn format_capabilities(caps: &Vec<PluginCapability>) -> (s: String)
    ensures
        s@ == variant_list(caps@),
{
    let mut s = String::new();
    let mut i: usize = 0;
    while i < caps.len()
        invariant
            i <= caps@.len(),
            s@ == variant_list(caps@.take(i as int)),
        decreases caps@.len() - i,
    {
        if i > 0 {
            s.append(", ");
        }
        s.append("PluginCapability::");
        s.append(capability_variant_str(&caps[i]));
        proof {
            assert(caps@.take(i + 1).drop_last() =~= caps@.take(i as int));
            if i == 0 {
                assert(s@ =~= variant_list(caps@.take(1)));
            }
        }
        i += 1;
    }
    assert(caps@.take(caps@.len() as int) =~= caps@);
    s
}

fn push_capability_lines(out: &mut String, caps: &Vec<PluginCapability>)
    ensures
        final(out)@ == old(out)@ + capability_lines(caps@),
{
    let ghost start = out@;
    let mut i: usize = 0;
    while i < caps.len()
        invariant
            i <= caps@.len(),
            out@ == start + capability_lines(caps@.take(i as int)),
        decreases caps@.len() - i,
    {
        out.append("  ");
        out.append(capability_to_str(&caps[i]));
        out.append(" = true\n");
        proof {
            assert(caps@.take(i + 1).drop_last() =~= caps@.take(i as int));
        }
        i += 1;
    }
    assert(caps@.take(caps@.len() as int) =~= caps@);
}

/// `key = "value"` followed by a blank line.
pub open spec fn field(key: Seq<char>, value: Seq<char>) -> Seq<char> {
    key + " = \""@ + value + "\"\n\n"@
}

/// A field present only when the value is.
pub open spec fn opt_field(key: Seq<char>, value: Option<String>) -> Seq<char> {
    match value {
        Some(v) => field(key, v@),
        None => Seq::empty(),
    }
}

/// The tag array, present only when there are tags.
pub open spec fn tags_block(tags: Seq<String>) -> Seq<char> {
    if tags.len() == 0 {
        Seq::empty()
    } else {
        "\n\ntags = ["@ + quoted_list(texts_of(tags)) + "]"@
    }
}

/// The `plugin.toml` manifest of a configuration.
pub open spec fn plugin_toml(c: WizardConfig) -> Seq<char> {
    field("id"@, c.id@) + field("name"@, c.name@) + field("description"@, c.description@) + field(
        "version"@,
        c.version@,
    ) + match c.long_description {
        Some(d) => "long_description = \"\"\"\n"@ + d@ + "\n\"\"\"\n\n"@,
        None => Seq::empty(),
    } + field("author"@, c.author@) + opt_field("author_email"@, c.author_email) + field(
        "plugin_type"@,
        plugin_type_word(c.plugin_type),
    ) + field("wasm_entry"@, c.wasm_entry@) + field("license"@, c.license@) + opt_field(
        "homepage"@,
        c.homepage,
    ) + opt_field("icon"@, c.icon) + "[capabilities]\n"@ + capability_lines(c.capabilities@)
        + tags_block(c.tags@)
}

fn push_field(out: &mut String, key: &str, value: &str)
    ensures
        final(out)@ == old(out)@ + field(key@, value@),
{
    let ghost start = out@;
    out.append(key);
    out.append(" = \"");
    out.append(value);
    out.append("\"\n\n");
    assert(out@ =~= start + field(key@, value@));
}

fn push_opt_field(out: &mut String, key: &str, value: &Option<String>)
    ensures
        final(out)@ == old(out)@ + opt_field(key@, *value),
{
    match value {
        Some(v) => push_field(out, key, v.as_str()),
        None => {
            assert(out@ =~= out@ + opt_field(key@, *value));
        },
    }
}

fn push_tags_block(out: &mut String, tags: &Vec<String>)
    ensures
        final(out)@ == old(out)@ + tags_block(tags@),
{
    let ghost start = out@;
    if tags.len() > 0 {
        out.append("\n\ntags = [");
        let t = format_tags(tags);
        out.append(t.as_str());
        out.append("]");
        assert(out@ =~= start + tags_block(tags@));
    } else {
        assert(out@ =~= start + tags_block(tags@));
    }
}

/// Render the `plugin.toml` manifest of a configuration.
pub fn generate_plugin_toml(config: &WizardConfig) -> (s: String)
    ensures
        s@ == plugin_toml(*config),
{
    let mut toml = String::new();
    push_field(&mut toml, "id", config.id.as_str());
    push_field(&mut toml, "name", config.name.as_str());
    push_field(&mut toml, "description", config.description.as_str());
    push_field(&mut toml, "version", config.version.as_str());
    let ghost before_long = toml@;
    match &config.long_description {
        Some(d) => {
            toml.append("long_description = \"\"\"\n");
            toml.append(d.as_str());
            toml.append("\n\"\"\"\n\n");
        },
        None => {},
    }
    let ghost after_long = toml@;
    push_field(&mut toml, "author", config.author.as_str());
    push_opt_field(&mut toml, "author_email", &config.author_email);
    push_field(&mut toml, "plugin_type", plugin_type_to_str(&config.plugin_type));
    push_field(&mut toml, "wasm_entry", config.wasm_entry.as_str());
    push_field(&mut toml, "license", config.license.as_str());
    push_opt_field(&mut toml, "homepage", &config.homepage);
    push_opt_field(&mut toml, "icon", &config.icon);
    toml.append("[capabilities]\n");
    push_capability_lines(&mut toml, &config.capabilities);
    push_tags_block(&mut toml, &config.tags);
    proof {
        assert(after_long == before_long + match config.long_description {
            Some(d) => "long_description = \"\"\"\n"@ + d@ + "\n\"\"\"\n\n"@,
            None => Seq::<char>::empty(),
        });
    }
    assert(toml@ =~= plugin_toml(*config));
    toml
}

/// `\n<key> = "<value>"` when the value is present.
pub open spec fn minter_opt(key: Seq<char>, value: Option<String>) -> Seq<char> {
    match value {
        Some(v) => "\n"@ + key + " = \""@ + v@ + "\""@,
        None => Seq::empty(),
    }
}

/// The minter configuration of a wizard configuration.
pub open spec fn minter_toml(c: WizardConfig) -> Seq<char> {
    "name = \""@ + c.name@ + "\"\n\ndescription = \""@ + c.description@ + "\"\n\nversion = \""@
        + c.version@ + "\"\n\nid = \""@ + c.id@ + "\"\n\nauthor = \""@ + c.author@
        + "\"\n\nplugin_type = \""@ + plugin_type_word(c.plugin_type) + "\"\n\nwasm_entry = \""@
        + c.wasm_entry@ + "\"\n\nlicense = \""@ + c.license@ + "\"\n"@ + minter_opt(
        "author_email"@,
        c.author_email,
    ) + minter_opt("homepage"@, c.homepage) + minter_opt("icon"@, c.icon) + if c.capabilities@.len()
        == 0 {
        Seq::<char>::empty()
    } else {
        "\n\n[capabilities]\n"@ + capability_lines(c.capabilities@)
    } + tags_block(c.tags@)
}

fn push_minter_opt(out: &mut String, key: &str, value: &Option<String>)
    ensures
        final(out)@ == old(out)@ + minter_opt(key@, *value),
{
    let ghost start = out@;
    match value {
        Some(v) => {
            out.append("\n");
            out.append(key);
            out.append(" = \"");
            out.append(v.as_str());
            out.append("\"");
        },
        None => {},
    }
    assert(out@ =~= start + minter_opt(key@, *value));
}

#[verifier::rlimit(30)]
fn push_minter_head(out: &mut String, c: &WizardConfig)
    ensures
        final(out)@ == old(out)@ + "name = \""@ + c.name@ + "\"\n\ndescription = \""@
            + c.description@ + "\"\n\nversion = \""@ + c.version@ + "\"\n\nid = \""@ + c.id@
            + "\"\n\nauthor = \""@ + c.author@ + "\"\n\nplugin_type = \""@ + plugin_type_word(c.plugin_type)
            + "\"\n\nwasm_entry = \""@ + c.wasm_entry@ + "\"\n\nlicense = \""@ + c.license@
            + "\"\n"@,
{
    out.append("name = \"");
    out.append(c.name.as_str());
    out.append("\"\n\ndescription = \"");
    out.append(c.description.as_str());
    out.append("\"\n\nversion = \"");
    out.append(c.version.as_str());
    out.append("\"\n\nid = \"");
    out.append(c.id.as_str());
    out.append("\"\n\nauthor = \"");
    out.append(c.author.as_str());
    out.append("\"\n\nplugin_type = \"");
    out.append(plugin_type_to_str(&c.plugin_type));
    out.append("\"\n\nwasm_entry = \"");
    out.append(c.wasm_entry.as_str());
    out.append("\"\n\nlicense = \"");
    out.append(c.license.as_str());
    out.append("\"\n");
}

/// Render the minter configuration of a wizard configuration.
pub fn generate_minter_toml(config: &WizardConfig) -> (s: String)
    ensures
        s@ == minter_toml(*config),
{
    let mut toml = String::new();
    push_minter_head(&mut toml, config);
    push_minter_opt(&mut toml, "author_email", &config.author_email);
    push_minter_opt(&mut toml, "homepage", &config.homepage);
    push_minter_opt(&mut toml, "icon", &config.icon);
    let ghost before_caps = toml@;
    if config.capabilities.len() > 0 {
        toml.append("\n\n[capabilities]\n");
        push_capability_lines(&mut toml, &config.capabilities);
    }
    let ghost after_caps = toml@;
    push_tags_block(&mut toml, &config.tags);
    proof {
        assert(after_caps =~= before_caps + if config.capabilities@.len() == 0 {
            Seq::<char>::empty()
        } else {
            "\n\n[capabilities]\n"@ + capability_lines(config.capabilities@)
        });
    }
    assert(toml@ =~= minter_toml(*config));
    toml
}

} // verus!
