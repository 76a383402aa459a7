//! The plugin harness: checks a plugin manifest's mandatory fields and
//! derives the harness manifest that registers the plugin with a runtime.

use vstd::prelude::*;
use crate::tools::minter::{replace_char, replace_char_exec};
use crate::tools::wizard::texts_of;

verus! {

/// A plugin manifest as the harness reads it: every field as text.
#[derive(Clone, Debug)]
pub struct PluginManifest {
    pub id: String,
    pub version: String,
    pub name: String,
    pub description: String,
    pub long_description: Option<String>,
    pub author: String,
    pub author_email: Option<String>,
    pub plugin_type: String,
    pub api_version: u32,
    pub capabilities: Vec<String>,
    pub wasm_entry: String,
    pub icon: Option<String>,
    pub homepage: Option<String>,
    pub license: String,
    pub tags: Vec<String>,
}

/// A single problem, or none.
pub open spec fn problem_if(cond: bool, msg: Seq<char>) -> Seq<Seq<char>> {
    if cond {
        seq![msg]
    } else {
        Seq::empty()
    }
}

/// The problem with the id, if any.
pub open spec fn id_problems(m: PluginManifest) -> Seq<Seq<char>> {
    if m.id@.len() == 0 {
        seq!["missing 'id' field"@]
    } else {
        problem_if(
            !m.id@.contains('.'),
            "'id' must be in reverse domain notation (e.g., com.example.plugin)"@,
        )
    }
}

/// The problem with the plugin type, if any.
pub open spec fn type_problems(m: PluginManifest) -> Seq<Seq<char>> {
    if m.plugin_type@.len() == 0 {
        seq!["missing 'plugin_type' field"@]
    } else {
        problem_if(
            m.plugin_type@ != "effect"@ && m.plugin_type@ != "tool"@,
            "'plugin_type' must be 'effect' or 'tool'"@,
        )
    }
}

/// The problems the harness finds in a manifest, in check order.
pub open spec fn manifest_errors(m: PluginManifest) -> Seq<Seq<char>> {
    id_problems(m) + problem_if(m.name@.len() == 0, "missing 'name' field"@) + problem_if(
        m.description@.len() == 0,
        "missing 'description' field"@,
    ) + problem_if(m.author@.len() == 0, "missing 'author' field"@) + type_problems(m) + problem_if(
        m.wasm_entry@.len() == 0,
        "missing 'wasm_entry' field"@,
    ) + problem_if(m.license@.len() == 0, "missing 'license' field"@)
}

/// The texts of a list of static strings.
pub open spec fn texts(v: Seq<&'static str>) -> Seq<Seq<char>> {
    Seq::new(v.len(), |i: int| v[i]@)
}

fn add_problem(errors: &mut Vec<&'static str>, cond: bool, msg: &'static str)
    ensures
        texts(final(errors)@) == texts(old(errors)@) + problem_if(cond, msg@),
{
    if cond {
        errors.push(msg);
    }
    assert(texts(errors@) =~= texts(old(errors)@) + problem_if(cond, msg@));
}

fn collect_problems(manifest: &PluginManifest) -> (errors: Vec<&'static str>)
    ensures
        texts(errors@) == manifest_errors(*manifest),
{
    let mut errors: Vec<&'static str> = Vec::new();
    if manifest.id.as_str().unicode_len() == 0 {
        errors.push("missing 'id' field");
    } else {
        let dotted = has_char(&manifest.id, '.');
        add_problem(
            &mut errors,
            !dotted,
            "'id' must be in reverse domain notation (e.g., com.example.plugin)",
        );
    }
    assert(texts(errors@) =~= id_problems(*manifest));
    add_problem(&mut errors, manifest.name.as_str().unicode_len() == 0, "missing 'name' field");
    add_problem(
        &mut errors,
        manifest.description.as_str().unicode_len() == 0,
        "missing 'description' field",
    );
    add_problem(&mut errors, manifest.author.as_str().unicode_len() == 0, "missing 'author' field");
    let ghost before_type = texts(errors@);
    if manifest.plugin_type.as_str().unicode_len() == 0 {
        errors.push("missing 'plugin_type' field");
    } else {
        let known = str_is(&manifest.plugin_type, "effect") || str_is(&manifest.plugin_type, "tool");
        add_problem(&mut errors, !known, "'plugin_type' must be 'effect' or 'tool'");
    }
    assert(texts(errors@) =~= before_type + type_problems(*manifest));
    add_problem(
        &mut errors,
        manifest.wasm_entry.as_str().unicode_len() == 0,
        "missing 'wasm_entry' field",
    );
    add_problem(&mut errors, manifest.license.as_str().unicode_len() == 0, "missing 'license' field");
    errors
}

/// The lines joined, each after `\n  - `.
pub open spec fn bullets(items: Seq<Seq<char>>) -> Seq<char>
    decreases items.len(),
{
    if items.len() == 0 {
        Seq::empty()
    } else {
        bullets(items.drop_last()) + "\n  - "@ + items.last()
    }
}

/// Whether `s` is exactly `lit`.
pub(crate) fn str_is(s: &String, lit: &str) -> (b: bool)
    ensures
        b == (s@ == lit@),
{
    crate::text::str_equal(s.as_str(), lit)
}

/// Whether `s` contains `c`.
pub(crate) fn has_char(s: &String, c: char) -> (b: bool)
    ensures
        b == s@.contains(c),
{
    let v = crate::text::chars_of(s.as_str());
    let mut i: usize = 0;
    while i < v.len()
        invariant
            i <= v@.len(),
            v@ == s@,
            forall|j: int| 0 <= j < i ==> v@[j] != c,
        decreases v@.len() - i,
    {
        if v[i] == c {
            return true;
        }
        i += 1;
    }
    false
}

/// Check a manifest's mandatory fields; the error lists every problem
/// found, one per line.
pub fn validate_manifest(manifest: &PluginManifest) -> (r: Result<(), String>)
    ensures
        manifest_errors(*manifest).len() == 0 ==> r is Ok,
        manifest_errors(*manifest).len() > 0 ==> (r matches Err(msg) && msg@
            == "manifest validation failed:"@ + bullets(manifest_errors(*manifest))),
{
    let errors = collect_problems(manifest);
    let ghost texts = texts(errors@);
    if errors.len() == 0 {
        return Ok(());
    }
    let mut msg = String::from_str("manifest validation failed:");
    let mut i: usize = 0;
    while i < errors.len()
        invariant
            i <= errors@.len(),
            texts == Seq::new(errors@.len(), |k: int| errors@[k]@),
            msg@ == "manifest validation failed:"@ + bullets(texts.take(i as int)),
        decreases errors@.len() - i,
    {
        msg.append("\n  - ");
        msg.append(errors[i]);
        proof {
            assert(texts.take(i + 1).drop_last() =~= texts.take(i as int));
        }
        i += 1;
    }
    assert(texts.take(texts.len() as int) =~= texts);
    Err(msg)
}

/// Health checking of a registered plugin.
#[derive(Clone, Debug)]
pub struct HealthCheckConfig {
    pub path: String,
    pub interval_ms: u64,
    pub timeout_ms: u64,
    pub unhealthy_threshold: u32,
}

/// Endpoints of a plugin for each runtime.
#[derive(Clone, Debug)]
pub struct RuntimeEndpoints {
    pub paint_type: Option<String>,
    pub wasm: Option<String>,
    pub http: Option<String>,
}

/// Descriptive metadata carried into the harness manifest.
#[derive(Clone, Debug)]
pub struct HarnessMetadata {
    pub name: Option<String>,
    pub description: Option<String>,
    pub version: Option<String>,
    pub author: Option<String>,
    pub license: Option<String>,
}

/// A data source a plugin offers.
#[derive(Clone, Debug)]
pub struct DataSource {
    pub name: String,
    pub path: String,
    pub method: String,
    /// Request body, as JSON text.
    pub body: Option<String>,
    pub returns: String,
    pub description: Option<String>,
}

/// The manifest registering a plugin with a runtime.
#[derive(Clone, Debug)]
pub struct HarnessManifest {
    pub schema: String,
    pub service_id: String,
    pub plugin_id: String,
    pub default_endpoint: String,
    pub runtime_endpoints: RuntimeEndpoints,
    pub health_check: Option<HealthCheckConfig>,
    pub data_sources: Vec<DataSource>,
    pub capabilities: Vec<String>,
    pub metadata: HarnessMetadata,
}

pub open spec fn some_text(o: Option<String>, t: Seq<char>) -> bool {
    o matches Some(s) && s@ == t
}

fn copy_strings(v: &Vec<String>) -> (r: Vec<String>)
    ensures
        r@.len() == v@.len(),
        forall|i: int| 0 <= i < v@.len() ==> r@[i]@ == v@[i]@,
{
    let mut r: Vec<String> = Vec::new();
    let mut i: usize = 0;
    while i < v.len()
        invariant
            i <= v@.len(),
            r@.len() == i,
            forall|j: int| 0 <= j < i ==> r@[j]@ == v@[j]@,
        decreases v@.len() - i,
    {
        r.push(v[i].clone());
        i += 1;
    }
    r
}

/// The harness manifest of a plugin for the runtime `target`: the service
/// id is `paint-type-plugin-` and the id with dots made dashes; the
/// endpoints are `paint-type://<target>/<id>` and `wasm://<entry>`.
pub fn generate_harness_manifest(m: &PluginManifest, target: &str) -> (h: HarnessManifest)
    ensures
        h.schema@ == "paint-type-harness/v1"@,
        h.service_id@ == "paint-type-plugin-"@ + replace_char(m.id@, '.', '-'),
        h.plugin_id@ == m.id@,
        h.default_endpoint@ == "paint-type://"@ + target@ + "/"@ + m.id@,
        some_text(h.runtime_endpoints.paint_type, "paint-type://"@ + target@ + "/"@ + m.id@),
        some_text(h.runtime_endpoints.wasm, "wasm://"@ + m.wasm_entry@),
        h.runtime_endpoints.http is None,
        h.health_check matches Some(hc) && hc.path@ == "/health"@ && hc.interval_ms == 5000
            && hc.timeout_ms == 1000 && hc.unhealthy_threshold == 3,
        h.data_sources@.len() == 0,
        h.capabilities@.len() == m.capabilities@.len(),
        forall|i: int| 0 <= i < m.capabilities@.len() ==> h.capabilities@[i]@ == m.capabilities@[i]@,
        some_text(h.metadata.name, m.name@),
        some_text(h.metadata.description, m.description@),
        some_text(h.metadata.version, m.version@),
        some_text(h.metadata.author, m.author@),
        some_text(h.metadata.license, m.license@),
{
    let normalized = replace_char_exec(m.id.as_str(), '.', '-');
    let mut service_id = String::from_str("paint-type-plugin-");
    service_id.append(normalized.as_str());
    let mut default_endpoint = String::from_str("paint-type://");
    default_endpoint.append(target);
    default_endpoint.append("/");
    default_endpoint.append(m.id.as_str());
    let mut paint_type_endpoint = String::from_str("paint-type://");
    paint_type_endpoint.append(target);
    paint_type_endpoint.append("/");
    paint_type_endpoint.append(m.id.as_str());
    let mut wasm_endpoint = String::from_str("wasm://");
    wasm_endpoint.append(m.wasm_entry.as_str());
    HarnessManifest {
        schema: "paint-type-harness/v1".to_owned(),
        service_id,
        plugin_id: m.id.clone(),
        default_endpoint,
        runtime_endpoints: RuntimeEndpoints {
            paint_type: Some(paint_type_endpoint),
            wasm: Some(wasm_endpoint),
            http: None,
        },
        health_check: Some(
            HealthCheckConfig {
                path: "/health".to_owned(),
                interval_ms: 5000,
                timeout_ms: 1000,
                unhealthy_threshold: 3,
            },
        ),
        data_sources: Vec::new(),
        capabilities: copy_strings(&m.capabilities),
        metadata: HarnessMetadata {
            name: Some(m.name.clone()),
            description: Some(m.description.clone()),
            version: Some(m.version.clone()),
            author: Some(m.author.clone()),
            license: Some(m.license.clone()),
        },
    }
}

/// How the harness runs: which plugin, the limits, the runtime target
/// and where registrations go.
#[derive(Clone, Debug)]
pub struct HarnessConfig {
    pub plugin_path: Option<String>,
    pub test_timeout_secs: u64,
    pub test_memory_limit_mb: usize,
    pub target: String,
    pub register: bool,
    pub registry_path: Option<String>,
    pub health_check: Option<HealthCheckConfig>,
}

impl Default for HarnessConfig {
    /// A 30 s, 256 MB test against the `paint-type` runtime, without
    /// registration.
    fn default() -> (c: HarnessConfig)
        ensures
            c.plugin_path is None,
            c.test_timeout_secs == 30,
            c.test_memory_limit_mb == 256,
            c.target@ == "paint-type"@,
            !c.register,
            c.registry_path is None,
            c.health_check is None,
    {
        HarnessConfig {
            plugin_path: None,
            test_timeout_secs: 30,
            test_memory_limit_mb: 256,
            target: "paint-type".to_owned(),
            register: false,
            registry_path: None,
            health_check: None,
        }
    }
}

impl Default for HealthCheckConfig {
    /// `/health` every 5 s with a 1 s timeout, unhealthy after 3 failures.
    fn default() -> (c: HealthCheckConfig)
        ensures
            c.path@ == "/health"@,
            c.interval_ms == 5000,
            c.timeout_ms == 1000,
            c.unhealthy_threshold == 3,
    {
        HealthCheckConfig {
            path: "/health".to_owned(),
            interval_ms: 5000,
            timeout_ms: 1000,
            unhealthy_threshold: 3,
        }
    }
}

impl Default for RuntimeEndpoints {
    /// No endpoints.
    fn default() -> (r: RuntimeEndpoints)
        ensures
            r.paint_type is None,
            r.wasm is None,
            r.http is None,
    {
        RuntimeEndpoints { paint_type: None, wasm: None, http: None }
    }
}

impl Default for HarnessMetadata {
    /// No metadata.
    fn default() -> (m: HarnessMetadata)
        ensures
            m.name is None,
            m.description is None,
            m.version is None,
            m.author is None,
            m.license is None,
    {
        HarnessMetadata { name: None, description: None, version: None, author: None, license: None }
    }
}

impl Default for HarnessManifest {
    /// The current schema and nothing else.
    fn default() -> (h: HarnessManifest)
        ensures
            h.schema@ == "paint-type-harness/v1"@,
            h.service_id@.len() == 0,
            h.plugin_id@.len() == 0,
            h.default_endpoint@.len() == 0,
            h.runtime_endpoints.paint_type is None,
            h.runtime_endpoints.wasm is None,
            h.runtime_endpoints.http is None,
            h.health_check is None,
            h.data_sources@.len() == 0,
            h.capabilities@.len() == 0,
            h.metadata.name is None,
    {
        HarnessManifest {
            schema: "paint-type-harness/v1".to_owned(),
            service_id: String::new(),
            plugin_id: String::new(),
            default_endpoint: String::new(),
            runtime_endpoints: RuntimeEndpoints::default(),
            health_check: None,
            data_sources: Vec::new(),
            capabilities: Vec::new(),
            metadata: HarnessMetadata::default(),
        }
    }
}

/// The outcome of testing a plugin.
#[derive(Clone, Debug)]
pub struct TestResult {
    pub plugin_id: String,
    pub passed: bool,
    pub errors: Vec<String>,
    pub warnings: Vec<String>,
    pub duration_ms: u64,
}

/// The file name of a plugin's release build: the id with dots made
/// dashes, then `.wasm`.
pub fn wasm_file_name(id: &str) -> (s: String)
    ensures
        s@ == replace_char(id@, '.', '-') + ".wasm"@,
{
    let mut s = replace_char_exec(id, '.', '-');
    s.append(".wasm");
    s
}


/// What looking for a plugin's `plugin.toml` found.
#[derive(Clone, Debug)]
pub enum ManifestLookup {
    /// There is no `plugin.toml`.
    Missing,
    /// It could not be read, parsed or validated, for this reason.
    Failed(String),
    /// It was loaded; the plugin's id.
    Loaded(String),
}

/// The result of testing a plugin: a missing or unloadable manifest fails
/// the test; a loaded one passes it, with a warning when the module is not
/// built yet.
pub fn plugin_test_result(
    plugin_dir: &str,
    lookup: ManifestLookup,
    wasm_path: &str,
    wasm_found: bool,
    duration_ms: u64,
) -> (r: TestResult)
    ensures
        r.duration_ms == duration_ms,
        lookup is Missing ==> r.plugin_id@.len() == 0 && !r.passed && texts_of(r.errors@) == seq![
            "plugin.toml not found in "@ + plugin_dir@,
        ] && r.warnings@.len() == 0,
        lookup matches ManifestLookup::Failed(e) ==> r.plugin_id@.len() == 0 && !r.passed && texts_of(
            r.errors@,
        ) == seq!["failed to load manifest: "@ + e@] && r.warnings@.len() == 0,
        lookup matches ManifestLookup::Loaded(id) ==> r.plugin_id@ == id@ && r.passed && r.errors@.len() == 0
            && texts_of(r.warnings@) == (if wasm_found {
            Seq::<Seq<char>>::empty()
        } else {
            seq!["WASM file not found at "@ + wasm_path@, "Run 'cargo build --release' to build the plugin"@]
        }),
{
    let mut errors: Vec<String> = Vec::new();
    let mut warnings: Vec<String> = Vec::new();
    match lookup {
        ManifestLookup::Missing => {
            let mut m = String::from_str("plugin.toml not found in ");
            m.append(plugin_dir);
            errors.push(m);
            assert(texts_of(errors@) =~= seq!["plugin.toml not found in "@ + plugin_dir@]);
            TestResult { plugin_id: String::new(), passed: false, errors, warnings, duration_ms }
        },
        ManifestLookup::Failed(e) => {
            let mut m = String::from_str("failed to load manifest: ");
            m.append(e.as_str());
            errors.push(m);
            assert(texts_of(errors@) =~= seq!["failed to load manifest: "@ + e@]);
            TestResult { plugin_id: String::new(), passed: false, errors, warnings, duration_ms }
        },
        ManifestLookup::Loaded(id) => {
            if !wasm_found {
                let mut m = String::from_str("WASM file not found at ");
                m.append(wasm_path);
                warnings.push(m);
                warnings.push("Run 'cargo build --release' to build the plugin".to_owned());
            }
            assert(texts_of(warnings@) =~= (if wasm_found {
                Seq::<Seq<char>>::empty()
            } else {
                seq!["WASM file not found at "@ + wasm_path@, "Run 'cargo build --release' to build the plugin"@]
            }));
            let passed = errors.len() == 0;
            TestResult { plugin_id: id, passed, errors, warnings, duration_ms }
        },
    }
}

} // verus!
