//! Plugin manifests: identity, version, type, requested capabilities and
//! authorship of a plugin, with the line-based manifest reader and the
//! validation rules.

use vstd::prelude::*;
use crate::plugins::error::{PluginError, PluginResult};
use crate::text::{
    chars_of, decimal, parse_u32, parse_u32_spec, string_from_chars, trim, trim_quotes,
    trim_quotes_range, trim_range, u64_to_decimal, is_digit, unsigned_part, is_ws, strip_start, strip_end,
};

verus! {

/// Unique plugin identifier in reverse domain notation.
#[derive(Debug, PartialEq, Eq, Hash)]
pub struct PluginId(String);

impl PluginId {
    /// The identifier text.
    pub closed spec fn text(&self) -> Seq<char> {
        self.0@
    }

    /// An identifier holding `id`.
    pub fn new(id: String) -> (p: PluginId)
        ensures
            p.text() == id@,
    {
        PluginId(id)
    }

    /// The identifier as a string slice.
    pub fn as_str(&self) -> (s: &str)
        ensures
            s@ == self.text(),
    {
        self.0.as_str()
    }

    /// The identifier text, for display.
    pub fn to_display_string(&self) -> (s: String)
        ensures
            s@ == self.text(),
    {
        self.0.clone()
    }
}

impl Clone for PluginId {
    fn clone(&self) -> (p: PluginId)
        ensures
            p.text() == self.text(),
    {
        PluginId(self.0.clone())
    }
}

/// Plugin version `major.minor.patch`.
#[derive(Clone, Copy, Debug, PartialEq, Eq, Structural)]
pub struct PluginVersion {
    pub major: u32,
    pub minor: u32,
    pub patch: u32,
}

/// `major.minor.patch` in decimal.
pub open spec fn version_text(v: PluginVersion) -> Seq<char> {
    decimal(v.major as nat) + "."@ + decimal(v.minor as nat) + "."@ + decimal(v.patch as nat)
}

/// Index of the first `c` in `s` at or after `from`; `s.len()` if none.
pub open spec fn index_of(s: Seq<char>, c: char, from: int) -> int
    decreases s.len() - from,
{
    if from >= s.len() {
        s.len() as int
    } else if from >= 0 && s[from] == c {
        from
    } else {
        index_of(s, c, from + 1)
    }
}

/// What `PluginVersion::parse` gives: exactly three `.`-separated parts,
/// each parsed as `str::parse::<u32>` does.
pub open spec fn version_parse(s: Seq<char>) -> Option<PluginVersion> {
    let i = index_of(s, '.', 0);
    let j = index_of(s, '.', i + 1);
    let k = index_of(s, '.', j + 1);
    if i >= s.len() || j >= s.len() || k < s.len() {
        None
    } else {
        match (
            parse_u32_spec(s.subrange(0, i)),
            parse_u32_spec(s.subrange(i + 1, j)),
            parse_u32_spec(s.subrange(j + 1, s.len() as int)),
        ) {
            (Some(major), Some(minor), Some(patch)) => Some(PluginVersion { major, minor, patch }),
            _ => None,
        }
    }
}

/// Formatting a version and parsing the text gives the version back.
pub proof fn law_version_text_parses(v: PluginVersion)
    ensures
        version_parse(version_text(v)) == Some(v),
{
    let a = decimal(v.major as nat);
    let b = decimal(v.minor as nat);
    let c = decimal(v.patch as nat);
    crate::text::lemma_decimal_digits(v.major as nat);
    crate::text::lemma_decimal_digits(v.minor as nat);
    crate::text::lemma_decimal_digits(v.patch as nat);
    let s = version_text(v);
    assert(s =~= a + seq!['.'] + b + seq!['.'] + c) by {
        assert("."@ =~= seq!['.']) by {
            reveal_strlit(".");
        }
    }
    let i = a.len() as int;
    let j = i + 1 + b.len();
    lemma_index_of(s, '.', 0);
    lemma_index_of(s, '.', i + 1);
    lemma_index_of(s, '.', j + 1);
    assert(s[i] == '.');
    assert(s[j] == '.');
    assert forall|k: int| 0 <= k < i implies s[k] != '.' by {
        assert(s[k] == a[k]);
        assert(is_digit(a[k]));
    }
    assert forall|k: int| i + 1 <= k < j implies s[k] != '.' by {
        assert(s[k] == b[k - i - 1]);
        assert(is_digit(b[k - i - 1]));
    }
    assert forall|k: int| j + 1 <= k < s.len() implies s[k] != '.' by {
        assert(s[k] == c[k - j - 1]);
        assert(is_digit(c[k - j - 1]));
    }
    assert(index_of(s, '.', 0) == i);
    assert(index_of(s, '.', i + 1) == j);
    assert(index_of(s, '.', j + 1) == s.len());
    assert(s.subrange(0, i) =~= a);
    assert(s.subrange(i + 1, j) =~= b);
    assert(s.subrange(j + 1, s.len() as int) =~= c);
    assert(unsigned_part(a) == a) by {
        assert(is_digit(a[0]));
    }
    assert(unsigned_part(b) == b) by {
        assert(is_digit(b[0]));
    }
    assert(unsigned_part(c) == c) by {
        assert(is_digit(c[0]));
    }
}

proof fn lemma_index_of(s: Seq<char>, c: char, from: int)
    requires
        0 <= from <= s.len(),
    ensures
        from <= index_of(s, c, from) <= s.len(),
        index_of(s, c, from) < s.len() ==> s[index_of(s, c, from)] == c,
        forall|k: int| from <= k < index_of(s, c, from) ==> s[k] != c,
    decreases s.len() - from,
{
    if from < s.len() && s[from] != c {
        lemma_index_of(s, c, from + 1);
    }
}

/// Index of the first `c` in `v[from..to]`, or `to`.
fn find_char(v: &Vec<char>, c: char, from: usize, to: usize) -> (i: usize)
    requires
        from <= to <= v@.len(),
    ensures
        from <= i <= to,
        i as int == index_of(v@.subrange(0, to as int), c, from as int),
{
    let ghost s = v@.subrange(0, to as int);
    let mut i = from;
    while i < to && v[i] != c
        invariant
            from <= i <= to <= v@.len(),
            s == v@.subrange(0, to as int),
            index_of(s, c, from as int) == index_of(s, c, i as int),
        decreases to - i,
    {
        assert(s[i as int] == v@[i as int]);
        i += 1;
    }
    if i < to {
        assert(s[i as int] == v@[i as int]);
    }
    i
}

impl PluginVersion {
    /// Minimum supported plugin API version.
    pub const MIN_API_VERSION: u32 = 1;

    /// Current plugin API version.
    pub const CURRENT_API_VERSION: u32 = 1;

    /// The version `major.minor.patch`.
    pub fn new(major: u32, minor: u32, patch: u32) -> (v: PluginVersion)
        ensures
            v == (PluginVersion { major, minor, patch }),
    {
        PluginVersion { major, minor, patch }
    }

    /// Parse the characters `v[from..to]` as a version.
    fn parse_chars(v: &Vec<char>, from: usize, to: usize) -> (r: Option<PluginVersion>)
        requires
            from <= to <= v@.len(),
        ensures
            r == version_parse(v@.subrange(from as int, to as int)),
    {
        let ghost s = v@.subrange(from as int, to as int);
        let i = find_char(v, '.', from, to);
        let j = if i < to {
            find_char(v, '.', i + 1, to)
        } else {
            to
        };
        let k = if j < to {
            find_char(v, '.', j + 1, to)
        } else {
            to
        };
        proof {
            lemma_index_shift(v@, '.', from as int, to as int, from as int);
            if i < to {
                lemma_index_shift(v@, '.', from as int, to as int, i + 1);
            }
            if j < to {
                lemma_index_shift(v@, '.', from as int, to as int, j + 1);
            }
        }
        if i >= to || j >= to || k < to {
            return None;
        }
        let major = parse_u32(v, from, i);
        let minor = parse_u32(v, i + 1, j);
        let patch = parse_u32(v, j + 1, to);
        proof {
            assert(s.subrange(0, i - from) =~= v@.subrange(from as int, i as int));
            assert(s.subrange(i + 1 - from, j - from) =~= v@.subrange(i + 1, j as int));
            assert(s.subrange(j + 1 - from, s.len() as int) =~= v@.subrange(j + 1, to as int));
        }
        match (major, minor, patch) {
            (Some(major), Some(minor), Some(patch)) => Some(PluginVersion { major, minor, patch }),
            _ => None,
        }
    }

    /// Parse a version string such as `1.2.3`.
    pub fn parse(s: &str) -> (r: Option<PluginVersion>)
        ensures
            r == version_parse(s@),
    {
        let v = chars_of(s);
        let r = PluginVersion::parse_chars(&v, 0, v.len());
        assert(v@.subrange(0, v@.len() as int) =~= s@);
        r
    }

    /// Compatible with the current plugin API: same major version.
    pub fn is_compatible(&self) -> (b: bool)
        ensures
            b == (self.major == 1),
    {
        self.major == PluginVersion::CURRENT_API_VERSION
    }

    /// `major.minor.patch`.
    pub fn to_display_string(&self) -> (s: String)
        ensures
            s@ == version_text(*self),
    {
        let mut s = u64_to_decimal(self.major as u64);
        s.append(".");
        let m = u64_to_decimal(self.minor as u64);
        s.append(m.as_str());
        s.append(".");
        let p = u64_to_decimal(self.patch as u64);
        s.append(p.as_str());
        s
    }
}

/// `index_of` in `v[from..to]`, seen from the shifted subsequence.
proof fn lemma_index_shift(v: Seq<char>, c: char, from: int, to: int, start: int)
    requires
        0 <= from <= start <= to <= v.len(),
    ensures
        index_of(v.subrange(from, to), c, start - from) == index_of(v.subrange(0, to), c, start)
            - from,
    decreases to - start,
{
    let s = v.subrange(from, to);
    let t = v.subrange(0, to);
    if start < to {
        assert(s[start - from] == t[start]);
        if t[start] != c {
            lemma_index_shift(v, c, from, to, start + 1);
        }
    }
}

/// Plugin type: which API the plugin uses.
#[derive(Clone, Copy, Debug, PartialEq, Eq, Structural)]
pub enum PluginType {
    /// Stateless transformations (filters, colour adjustments).
    Effect,
    /// Stateful tools (brushes, selection tools).
    Tool,
}

impl PluginType {
    /// `effect` or `tool`.
    pub fn to_display_string(&self) -> (s: String)
        ensures
            *self == PluginType::Effect ==> s@ == "effect"@,
            *self == PluginType::Tool ==> s@ == "tool"@,
    {
        match self {
            PluginType::Effect => "effect".to_owned(),
            PluginType::Tool => "tool".to_owned(),
        }
    }
}

/// A capability a plugin may request.
#[derive(Clone, Copy, Debug, PartialEq, Eq, Structural, Hash)]
pub enum PluginCapability {
    CanvasRead,
    CanvasWrite,
    LayerAccess,
    SelectionAccess,
    FileAccess,
    NetworkAccess,
    UserInterface,
    PersistentStorage,
}

/// The declarative metadata of a plugin.
#[derive(Debug)]
pub struct PluginManifest {
    pub id: PluginId,
    pub version: PluginVersion,
    pub name: String,
    pub description: String,
    pub long_description: Option<String>,
    pub author: String,
    pub author_email: Option<String>,
    pub plugin_type: PluginType,
    pub api_version: u32,
    pub capabilities: Vec<PluginCapability>,
    pub wasm_entry: String,
    pub icon: Option<String>,
    pub homepage: Option<String>,
    pub license: String,
    pub tags: Vec<String>,
}

/// The content of a manifest.
pub struct ManifestModel {
    pub id: Seq<char>,
    pub version: PluginVersion,
    pub name: Seq<char>,
    pub description: Seq<char>,
    pub long_description: Option<Seq<char>>,
    pub author: Seq<char>,
    pub author_email: Option<Seq<char>>,
    pub plugin_type: PluginType,
    pub api_version: u32,
    pub capabilities: Seq<PluginCapability>,
    pub wasm_entry: Seq<char>,
    pub icon: Option<Seq<char>>,
    pub homepage: Option<Seq<char>>,
    pub license: Seq<char>,
    pub tags: Seq<Seq<char>>,
}

pub open spec fn opt_text(o: Option<String>) -> Option<Seq<char>> {
    match o {
        Some(s) => Some(s@),
        None => None,
    }
}

impl PluginManifest {
    pub open spec fn model(&self) -> ManifestModel {
        ManifestModel {
            id: self.id.text(),
            version: self.version,
            name: self.name@,
            description: self.description@,
            long_description: opt_text(self.long_description),
            author: self.author@,
            author_email: opt_text(self.author_email),
            plugin_type: self.plugin_type,
            api_version: self.api_version,
            capabilities: self.capabilities@,
            wasm_entry: self.wasm_entry@,
            icon: opt_text(self.icon),
            homepage: opt_text(self.homepage),
            license: self.license@,
            tags: Seq::new(self.tags@.len(), |i: int| self.tags@[i]@),
        }
    }
}

/// The manifest every reader starts from.
pub open spec fn default_model() -> ManifestModel {
    ManifestModel {
        id: Seq::empty(),
        version: PluginVersion { major: 1, minor: 0, patch: 0 },
        name: Seq::empty(),
        description: Seq::empty(),
        long_description: None,
        author: Seq::empty(),
        author_email: None,
        plugin_type: PluginType::Effect,
        api_version: 1,
        capabilities: Seq::empty(),
        wasm_entry: "_start"@,
        icon: None,
        homepage: None,
        license: "AGPL-3.0-or-later"@,
        tags: Seq::empty(),
    }
}

impl Default for PluginManifest {
    /// Empty identity, version 1.0.0, an effect, API version 1, entry
    /// `_start`, licence AGPL-3.0-or-later.
    fn default() -> (m: PluginManifest)
        ensures
            m.model() == default_model(),
    {
        let m = PluginManifest {
            id: PluginId::new(String::new()),
            version: PluginVersion::new(1, 0, 0),
            name: String::new(),
            description: String::new(),
            long_description: None,
            author: String::new(),
            author_email: None,
            plugin_type: PluginType::Effect,
            api_version: PluginVersion::MIN_API_VERSION,
            capabilities: Vec::new(),
            wasm_entry: "_start".to_owned(),
            icon: None,
            homepage: None,
            license: "AGPL-3.0-or-later".to_owned(),
            tags: Vec::new(),
        };
        assert(m.model().tags =~= Seq::<Seq<char>>::empty());
        assert(m.model().capabilities =~= Seq::<PluginCapability>::empty());
        m
    }
}

//==============================================================================
// Validation
//==============================================================================

/// The first rule of the manifest's mandatory fields that `m` breaks, as
/// its message; `None` if it breaks none.
pub open spec fn field_problem(m: ManifestModel) -> Option<Seq<char>> {
    if m.id.len() == 0 {
        Some("id is required"@)
    } else if !m.id.contains('.') {
        Some("id must be in reverse domain notation (e.g., com.example.plugin)"@)
    } else if m.name.len() == 0 {
        Some("name is required"@)
    } else if m.description.len() == 0 {
        Some("description is required"@)
    } else if m.author.len() == 0 {
        Some("author is required"@)
    } else if m.wasm_entry.len() == 0 {
        Some("wasm_entry is required"@)
    } else if m.license.len() == 0 {
        Some("license is required"@)
    } else {
        None
    }
}

/// The API version is below the minimum or the plugin's major version is
/// not the current API version.
pub open spec fn version_problem(m: ManifestModel) -> bool {
    m.api_version < 1 || m.version.major != 1
}

/// How `validate` judges a manifest with content `m`.
pub open spec fn validation_ok(m: ManifestModel, r: PluginResult<()>) -> bool {
    match field_problem(m) {
        Some(msg) => r matches Err(PluginError::ManifestValidation(x)) && x@ == msg,
        None => if version_problem(m) {
            r matches Err(PluginError::UnsupportedVersion(v)) && v == m.version
        } else {
            r is Ok
        },
    }
}

fn contains_char(s: &str, c: char) -> (b: bool)
    ensures
        b == s@.contains(c),
{
    let v = chars_of(s);
    let mut i: usize = 0;
    while i < v.len()
        invariant
            i <= v@.len(),
            v@ == s@,
            forall|j: int| 0 <= j < i ==> v@[j] != c,
        decreases v@.len() - i,
    {
        if v[i] == c {
            return true;
        }
        i += 1;
    }
    false
}

impl PluginManifest {
    /// Validate the manifest: mandatory fields first, in declaration
    /// order, then the version rules.
    pub fn validate(&self) -> (r: PluginResult<()>)
        ensures
            validation_ok(self.model(), r),
    {
        if self.id.as_str().unicode_len() == 0 {
            return Err(PluginError::manifest_validation("id is required"));
        }
        if !contains_char(self.id.as_str(), '.') {
            return Err(
                PluginError::manifest_validation(
                    "id must be in reverse domain notation (e.g., com.example.plugin)",
                ),
            );
        }
        if self.name.as_str().unicode_len() == 0 {
            return Err(PluginError::manifest_validation("name is required"));
        }
        if self.description.as_str().unicode_len() == 0 {
            return Err(PluginError::manifest_validation("description is required"));
        }
        if self.author.as_str().unicode_len() == 0 {
            return Err(PluginError::manifest_validation("author is required"));
        }
        if self.wasm_entry.as_str().unicode_len() == 0 {
            return Err(PluginError::manifest_validation("wasm_entry is required"));
        }
        if self.license.as_str().unicode_len() == 0 {
            return Err(PluginError::manifest_validation("license is required"));
        }
        if self.api_version < PluginVersion::MIN_API_VERSION {
            return Err(PluginError::UnsupportedVersion(self.version));
        }
        if !self.version.is_compatible() {
            return Err(PluginError::UnsupportedVersion(self.version));
        }
        Ok(())
    }

    /// The requested capabilities, each once, in order of first request.
    pub fn required_capabilities(&self) -> (r: Vec<PluginCapability>)
        ensures
            forall|c: PluginCapability| r@.contains(c) <==> self.capabilities@.contains(c),
            r@.no_duplicates(),
    {
        let mut r: Vec<PluginCapability> = Vec::new();
        let mut i: usize = 0;
        while i < self.capabilities.len()
            invariant
                i <= self.capabilities@.len(),
                r@.no_duplicates(),
                forall|c: PluginCapability|
                    r@.contains(c) <==> self.capabilities@.take(i as int).contains(c),
            decreases self.capabilities@.len() - i,
        {
            let c = self.capabilities[i];
            let ghost t = self.capabilities@.take(i as int);
            let ghost r0 = r@;
            assert(self.capabilities@.take(i + 1) =~= t.push(c));
            if !vec_contains(&r, c) {
                r.push(c);
                proof {
                    assert forall|d: PluginCapability| r@.contains(d) <==> (r0.contains(d) || d == c) by {
                        lemma_push_contains(r0, c, d);
                    }
                }
            } else {
                assert(r0.contains(c));
            }
            proof {
                assert forall|d: PluginCapability| r@.contains(d) <==> t.push(c).contains(d) by {
                    lemma_push_contains(t, c, d);
                    assert(r0.contains(d) <==> t.contains(d));
                    assert(r@.contains(d) <==> (r0.contains(d) || d == c));
                }
            }
            i += 1;
        }
        assert(self.capabilities@.take(self.capabilities@.len() as int) =~= self.capabilities@);
        r
    }

    /// Whether the manifest requests `cap`.
    pub fn has_capability(&self, cap: PluginCapability) -> (b: bool)
        ensures
            b == self.capabilities@.contains(cap),
    {
        vec_contains(&self.capabilities, cap)
    }
}

proof fn lemma_push_contains<T>(s: Seq<T>, x: T, d: T)
    ensures
        s.push(x).contains(d) <==> (s.contains(d) || d == x),
{
    if s.push(x).contains(d) && d != x {
        let k = choose|k: int| 0 <= k < s.push(x).len() && #[trigger] s.push(x)[k] == d;
        assert(s[k] == d);
    }
    if s.contains(d) {
        let k = choose|k: int| 0 <= k < s.len() && #[trigger] s[k] == d;
        assert(s.push(x)[k] == d);
    }
    if d == x {
        assert(s.push(x)[s.len() as int] == x);
    }
}

/// Whether `v` holds `c`.
pub fn vec_contains(v: &Vec<PluginCapability>, c: PluginCapability) -> (b: bool)
    ensures
        b == v@.contains(c),
{
    let mut i: usize = 0;
    while i < v.len()
        invariant
            i <= v@.len(),
            forall|j: int| 0 <= j < i ==> v@[j] != c,
        decreases v@.len() - i,
    {
        if v[i] == c {
            return true;
        }
        i += 1;
    }
    false
}

//==============================================================================
// The line-based manifest reader
//==============================================================================

/// ASCII upper-case letters mapped to lower case, other characters kept.
/// For the two words the reader compares against (`effect`, `tool`) this
/// agrees with full Unicode lower-casing, since no non-ASCII character
/// lower-cases to one of their letters.
pub open spec fn ascii_lower(s: Seq<char>) -> Seq<char> {
    Seq::new(
        s.len(),
        |i: int|
            if 'A' <= s[i] && s[i] <= 'Z' {
                ((s[i] as u32) + 32) as char
            } else {
                s[i]
            },
    )
}

/// The manifest after the `key = value` assignment `key`, `value`.
pub open spec fn apply_key(m: ManifestModel, key: Seq<char>, value: Seq<char>) -> ManifestModel {
    if key == "id"@ {
        ManifestModel { id: value, ..m }
    } else if key == "version"@ {
        match version_parse(value) {
            Some(v) => ManifestModel { version: v, ..m },
            None => m,
        }
    } else if key == "name"@ {
        ManifestModel { name: value, ..m }
    } else if key == "description"@ {
        ManifestModel { description: value, ..m }
    } else if key == "author"@ {
        ManifestModel { author: value, ..m }
    } else if key == "author_email"@ {
        ManifestModel { author_email: Some(value), ..m }
    } else if key == "plugin_type"@ || key == "type"@ {
        if ascii_lower(value) == "effect"@ {
            ManifestModel { plugin_type: PluginType::Effect, ..m }
        } else if ascii_lower(value) == "tool"@ {
            ManifestModel { plugin_type: PluginType::Tool, ..m }
        } else {
            m
        }
    } else if key == "api_version"@ {
        match parse_u32_spec(value) {
            Some(v) => ManifestModel { api_version: v, ..m },
            None => m,
        }
    } else if key == "wasm_entry"@ {
        ManifestModel { wasm_entry: value, ..m }
    } else if key == "license"@ {
        ManifestModel { license: value, ..m }
    } else {
        m
    }
}

/// The manifest after one line: blank lines, `#` comments, `[` section
/// headers and lines without `=` change nothing; otherwise the trimmed
/// key and the trimmed, unquoted value are assigned.
pub open spec fn apply_line(m: ManifestModel, raw: Seq<char>) -> ManifestModel {
    let line = trim(raw);
    if line.len() == 0 || line[0] == '#' || line[0] == '[' {
        m
    } else {
        let eq = index_of(line, '=', 0);
        if eq >= line.len() {
            m
        } else {
            apply_key(
                m,
                trim(line.subrange(0, eq)),
                trim_quotes(trim(line.subrange(eq + 1, line.len() as int))),
            )
        }
    }
}

/// The manifest after the complete lines of `s`, and the unfinished last
/// line.
pub open spec fn scan_lines(s: Seq<char>) -> (ManifestModel, Seq<char>)
    decreases s.len(),
{
    if s.len() == 0 {
        (default_model(), Seq::empty())
    } else {
        let (m, cur) = scan_lines(s.drop_last());
        if s.last() == '\n' {
            (apply_line(m, cur), Seq::empty())
        } else {
            (m, cur.push(s.last()))
        }
    }
}

/// Both keys name the plugin's type: an assignment to `plugin_type` or to
/// `type` whose value reads `tool` or `effect`, in any letter case, makes
/// any manifest read so far a tool or an effect.
pub proof fn law_type_keys_set_the_type(m: ManifestModel, value: Seq<char>)
    ensures
        ascii_lower(value) == "tool"@ ==> apply_key(m, "plugin_type"@, value).plugin_type == PluginType::Tool
            && apply_key(m, "type"@, value).plugin_type == PluginType::Tool,
        ascii_lower(value) == "effect"@ ==> apply_key(m, "plugin_type"@, value).plugin_type
            == PluginType::Effect && apply_key(m, "type"@, value).plugin_type == PluginType::Effect,
{
    reveal_strlit("plugin_type");
    reveal_strlit("type");
    reveal_strlit("id");
    reveal_strlit("version");
    reveal_strlit("name");
    reveal_strlit("description");
    reveal_strlit("author");
    reveal_strlit("author_email");
    reveal_strlit("tool");
    reveal_strlit("effect");
    assert("plugin_type"@.len() == 11 && "type"@.len() == 4 && "id"@.len() == 2);
    assert("version"@.len() == 7 && "name"@.len() == 4 && "description"@.len() == 11);
    assert("author"@.len() == 6 && "author_email"@.len() == 12);
    assert("tool"@.len() == 4 && "effect"@.len() == 6);
    assert("plugin_type"@ != "description"@) by {
        assert("plugin_type"@[0] != "description"@[0]);
    }
    assert("type"@ != "name"@) by {
        assert("type"@[0] != "name"@[0]);
    }
}

/// Each key sets its own field and leaves the others: `id`, `name`,
/// `description`, `author`, `wasm_entry` and `license` take the value as
/// written, and `author_email` takes it as the address.
pub proof fn law_text_keys_set_their_field(m: ManifestModel, value: Seq<char>)
    ensures
        apply_key(m, "id"@, value) == (ManifestModel { id: value, ..m }),
        apply_key(m, "name"@, value) == (ManifestModel { name: value, ..m }),
        apply_key(m, "description"@, value) == (ManifestModel { description: value, ..m }),
        apply_key(m, "author"@, value) == (ManifestModel { author: value, ..m }),
        apply_key(m, "author_email"@, value) == (ManifestModel { author_email: Some(value), ..m }),
        apply_key(m, "wasm_entry"@, value) == (ManifestModel { wasm_entry: value, ..m }),
        apply_key(m, "license"@, value) == (ManifestModel { license: value, ..m }),
{
    reveal_strlit("plugin_type");
    reveal_strlit("type");
    reveal_strlit("id");
    reveal_strlit("version");
    reveal_strlit("name");
    reveal_strlit("description");
    reveal_strlit("author");
    reveal_strlit("author_email");
    reveal_strlit("api_version");
    reveal_strlit("wasm_entry");
    reveal_strlit("license");
    assert("plugin_type"@.len() == 11 && "type"@.len() == 4 && "id"@.len() == 2);
    assert("version"@.len() == 7 && "name"@.len() == 4 && "description"@.len() == 11);
    assert("author"@.len() == 6 && "author_email"@.len() == 12);
    assert("api_version"@.len() == 11 && "wasm_entry"@.len() == 10 && "license"@.len() == 7);
    assert("plugin_type"@ != "description"@) by {
        assert("plugin_type"@[0] != "description"@[0]);
    }
    assert("type"@ != "name"@) by {
        assert("type"@[0] != "name"@[0]);
    }
    assert("api_version"@ != "description"@) by {
        assert("api_version"@[0] != "description"@[0]);
    }
    assert("api_version"@ != "plugin_type"@) by {
        assert("api_version"@[0] != "plugin_type"@[0]);
    }
    assert("license"@ != "version"@) by {
        assert("license"@[0] != "version"@[0]);
    }
}

/// The line the plugin wizard writes, `plugin_type = "tool"`, makes any
/// manifest read so far a tool.
pub proof fn law_plugin_type_line_sets_tool(m: ManifestModel)
    ensures
        apply_line(m, "plugin_type = \"tool\""@).plugin_type == PluginType::Tool,
{
    let l = "plugin_type = \"tool\""@;
    reveal_strlit("plugin_type = \"tool\"");
    reveal_strlit("plugin_type");
    reveal_strlit("tool");
    assert(l.len() == 20);
    assert(!is_ws(l[0]) && !is_ws(l.last()));
    assert(strip_start(l, |c: char| is_ws(c)) == l);
    assert(trim(l) == l);
    lemma_index_of(l, '=', 0);
    assert(l[12] == '=');
    assert(index_of(l, '=', 0) == 12);
    let k = l.subrange(0, 12);
    assert(strip_start(k, |c: char| is_ws(c)) == k);
    assert(is_ws(k.last()));
    assert(!is_ws(k.drop_last().last()));
    assert(strip_end(k.drop_last(), |c: char| is_ws(c)) == k.drop_last());
    assert(trim(k) =~= "plugin_type"@);
    let v = l.subrange(13, 20);
    assert(is_ws(v[0]));
    assert(v.drop_first()[0] == '"');
    assert(strip_start(v.drop_first(), |c: char| is_ws(c)) == v.drop_first());
    let v1 = v.drop_first();
    assert(strip_end(v1, |c: char| is_ws(c)) == v1);
    assert(trim(v) == v1);
    assert(v1.drop_first()[0] == 't');
    assert(strip_start(v1.drop_first(), |c: char| c == '"') == v1.drop_first());
    let v2 = v1.drop_first();
    assert(v2.drop_last().last() == 'l');
    assert(strip_end(v2.drop_last(), |c: char| c == '"') == v2.drop_last());
    assert(trim_quotes(v1) =~= "tool"@);
    assert(ascii_lower("tool"@) =~= "tool"@);
    law_type_keys_set_the_type(m, "tool"@);
}

/// The manifest the reader builds from `s`, before validation.
pub open spec fn read_manifest(s: Seq<char>) -> ManifestModel {
    apply_line(scan_lines(s).0, scan_lines(s).1)
}

/// Reading `s` and then the characters of `t`, none a line break, leaves
/// the manifest of `s` and `t` as the unfinished line, when `s` ends a line.
proof fn lemma_scan_open_line(s: Seq<char>, t: Seq<char>)
    requires
        s.len() == 0 || s.last() == '\n',
        !t.contains('\n'),
    ensures
        scan_lines(s + t) == (scan_lines(s).0, t),
    decreases t.len(),
{
    if t.len() == 0 {
        assert(s + t =~= s);
        if s.len() > 0 {
            assert(scan_lines(s).1 == Seq::<char>::empty());
        }
    } else {
        let t1 = t.drop_last();
        assert(!t1.contains('\n')) by {
            if t1.contains('\n') {
                let k = choose|k: int| 0 <= k < t1.len() && t1[k] == '\n';
                assert(t[k] == '\n');
            }
        }
        lemma_scan_open_line(s, t1);
        assert((s + t).drop_last() =~= s + t1);
        assert((s + t).last() == t.last());
        assert(t.last() != '\n') by {
            assert(t[t.len() - 1] == t.last());
        }
        assert(t1.push(t.last()) =~= t);
    }
}

/// A manifest text whose last line is `plugin_type = "tool"`, whatever
/// complete lines come before it, is read as a tool.
pub proof fn law_plugin_type_line_read_as_tool(s: Seq<char>)
    requires
        s.len() == 0 || s.last() == '\n',
    ensures
        read_manifest(s + "plugin_type = \"tool\"\n"@).plugin_type == PluginType::Tool,
{
    let l = "plugin_type = \"tool\""@;
    reveal_strlit("plugin_type = \"tool\"");
    reveal_strlit("plugin_type = \"tool\"\n");
    assert("plugin_type = \"tool\"\n"@ =~= l.push('\n'));
    assert(!l.contains('\n')) by {
        if l.contains('\n') {
            let k = choose|k: int| 0 <= k < l.len() && l[k] == '\n';
        }
    }
    lemma_scan_open_line(s, l);
    let all = s + l.push('\n');
    assert(all.drop_last() =~= s + l);
    assert(all.last() == '\n');
    let m0 = scan_lines(s).0;
    assert(scan_lines(all) == (apply_line(m0, l), Seq::<char>::empty()));
    law_plugin_type_line_sets_tool(m0);
    assert(trim(Seq::<char>::empty()) =~= Seq::<char>::empty());
    assert(s + "plugin_type = \"tool\"\n"@ == all);
}

fn range_is(v: &Vec<char>, from: usize, to: usize, lit: &str) -> (b: bool)
    requires
        from <= to <= v@.len(),
    ensures
        b == (v@.subrange(from as int, to as int) == lit@),
{
    let w = chars_of(lit);
    if to - from != w.len() {
        return false;
    }
    let mut i: usize = 0;
    while i < w.len()
        invariant
            i <= w@.len(),
            w@ == lit@,
            from + w@.len() == to <= v@.len(),
            forall|j: int| 0 <= j < i ==> v@[from + j] == w@[j],
        decreases w@.len() - i,
    {
        if v[from + i] != w[i] {
            assert(v@.subrange(from as int, to as int)[i as int] != lit@[i as int]);
            return false;
        }
        i += 1;
    }
    assert(v@.subrange(from as int, to as int) =~= lit@);
    true
}

fn range_lower_is(v: &Vec<char>, from: usize, to: usize, lit: &str) -> (b: bool)
    requires
        from <= to <= v@.len(),
    ensures
        b == (ascii_lower(v@.subrange(from as int, to as int)) == lit@),
{
    let w = chars_of(lit);
    let ghost s = v@.subrange(from as int, to as int);
    if to - from != w.len() {
        return false;
    }
    let mut i: usize = 0;
    while i < w.len()
        invariant
            i <= w@.len(),
            w@ == lit@,
            s == v@.subrange(from as int, to as int),
            from + w@.len() == to <= v@.len(),
            forall|j: int| 0 <= j < i ==> ascii_lower(s)[j] == w@[j],
        decreases w@.len() - i,
    {
        let c = v[from + i];
        let wc = w[i];
        let same = if 'A' <= c && c <= 'Z' {
            (c as u32) + 32 == (wc as u32)
        } else {
            c == wc
        };
        proof {
            assert(s[i as int] == c);
            if 'A' <= c && c <= 'Z' {
                let lc = ((c as u32) + 32) as char;
                assert(lc as u32 == (c as u32) + 32);
                assert((lc == wc) == (lc as u32 == wc as u32)) by {
                    vstd::utf8::char_u32_cast(lc, lc as u32);
                    vstd::utf8::char_u32_cast(wc, wc as u32);
                }
                assert(same == (lc == wc));
            }
        }
        if !same {
            return false;
        }
        i += 1;
    }
    assert(ascii_lower(s) =~= lit@);
    true
}

fn set_string(target: &mut String, v: &Vec<char>, from: usize, to: usize)
    requires
        from <= to <= v@.len(),
    ensures
        final(target)@ == v@.subrange(from as int, to as int),
{
    *target = string_from_chars(v.as_slice(), from, to);
}

/// Apply the line `v[from..to]` to `m`.
fn apply_line_exec(m: &mut PluginManifest, v: &Vec<char>, from: usize, to: usize)
    requires
        from <= to <= v@.len(),
    ensures
        final(m).model() == apply_line(old(m).model(), v@.subrange(from as int, to as int)),
{
    let ghost m0 = m.model();
    let (a, b) = trim_range(v, from, to);
    let ghost line = v@.subrange(a as int, b as int);
    if a == b || v[a] == '#' || v[a] == '[' {
        return;
    }
    assert(line[0] == v@[a as int]);
    let eq = find_char(v, '=', a, b);
    proof {
        lemma_index_shift(v@, '=', a as int, b as int, a as int);
    }
    if eq >= b {
        return;
    }
    let (ka, kb) = trim_range(v, a, eq);
    let (va0, vb0) = trim_range(v, eq + 1, b);
    let (va, vb) = trim_quotes_range(v, va0, vb0);
    proof {
        assert(line.subrange(0, eq - a) =~= v@.subrange(a as int, eq as int));
        assert(line.subrange(eq - a + 1, line.len() as int) =~= v@.subrange(eq + 1, b as int));
    }
    let ghost key = v@.subrange(ka as int, kb as int);
    let ghost value = v@.subrange(va as int, vb as int);
    assert(apply_line(m0, v@.subrange(from as int, to as int)) == apply_key(m0, key, value));
    if range_is(v, ka, kb, "id") {
        let s = string_from_chars(v.as_slice(), va, vb);
        m.id = PluginId::new(s);
    } else if range_is(v, ka, kb, "version") {
        match PluginVersion::parse_chars(v, va, vb) {
            Some(ver) => {
                m.version = ver;
            },
            None => {},
        }
    } else if range_is(v, ka, kb, "name") {
        set_string(&mut m.name, v, va, vb);
    } else if range_is(v, ka, kb, "description") {
        set_string(&mut m.description, v, va, vb);
    } else if range_is(v, ka, kb, "author") {
        set_string(&mut m.author, v, va, vb);
    } else if range_is(v, ka, kb, "author_email") {
        m.author_email = Some(string_from_chars(v.as_slice(), va, vb));
    } else if range_is(v, ka, kb, "plugin_type") || range_is(v, ka, kb, "type") {
        if range_lower_is(v, va, vb, "effect") {
            m.plugin_type = PluginType::Effect;
        } else if range_lower_is(v, va, vb, "tool") {
            m.plugin_type = PluginType::Tool;
        }
    } else if range_is(v, ka, kb, "api_version") {
        match parse_u32(v, va, vb) {
            Some(n) => {
                m.api_version = n;
            },
            None => {},
        }
    } else if range_is(v, ka, kb, "wasm_entry") {
        set_string(&mut m.wasm_entry, v, va, vb);
    } else if range_is(v, ka, kb, "license") {
        set_string(&mut m.license, v, va, vb);
    }
    assert(m.model().tags =~= m0.tags);
}

impl PluginManifest {
    /// Read a manifest from `key = value` lines, starting from the default
    /// manifest, then validate it.
    pub fn from_toml(content: &str) -> (r: PluginResult<PluginManifest>)
        ensures
            validation_ok(read_manifest(content@), match r {
                Ok(_) => Ok(()),
                Err(e) => Err(e),
            }),
            r matches Ok(m) ==> m.model() == read_manifest(content@),
    {
        let v = chars_of(content);
        let mut m = PluginManifest::default();
        let mut start: usize = 0;
        let mut k: usize = 0;
        while k < v.len()
            invariant
                start <= k <= v@.len(),
                v@ == content@,
                scan_lines(v@.take(k as int)) == (m.model(), v@.subrange(start as int, k as int)),
            decreases v@.len() - k,
        {
            proof {
                assert(v@.take(k + 1).drop_last() =~= v@.take(k as int));
                assert(v@.take(k + 1).last() == v@[k as int]);
            }
            if v[k] == '\n' {
                apply_line_exec(&mut m, &v, start, k);
                start = k + 1;
                assert(v@.subrange(start as int, k + 1) =~= Seq::<char>::empty());
            } else {
                assert(v@.subrange(start as int, k + 1) =~= v@.subrange(start as int, k as int).push(
                    v@[k as int],
                ));
            }
            k += 1;
        }
        assert(v@.take(v@.len() as int) =~= content@);
        apply_line_exec(&mut m, &v, start, v.len());
        match m.validate() {
            Ok(_) => Ok(m),
            Err(e) => Err(e),
        }
    }
}

} // verus!
