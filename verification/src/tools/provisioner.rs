//! The plugin provisioner's logic: its phase machine and log, file
//! checksums, the copy check, and where a plugin is installed.

use vstd::prelude::*;
use sha2::Digest;
use crate::plugins::manifest::{PluginCapability, PluginId, PluginManifest, PluginVersion};
use crate::ptype::hex_digit;

verus! {

/// Where a provisioning run stands.
#[derive(Clone, Copy, Debug, PartialEq, Eq, Structural)]
pub enum ProvisioningPhase {
    /// Waiting to start.
    Idle,
    /// Resolving the plugin's dependencies.
    ResolvingDependencies,
    /// Fetching plugin artifacts.
    Downloading,
    /// Checking the manifest and the artifacts.
    Validating,
    /// Copying into the target directory.
    Installing,
    /// Writing the plugin's configuration.
    Configuring,
    /// Done.
    Complete,
    /// Stopped by an error.
    Failed,
}

/// The state of a provisioning run: its phase, the plugins it has dealt
/// with at each step, and its log and error messages in order.
pub struct ProvisioningState {
    pub phase: ProvisioningPhase,
    pub plugin_id: Option<PluginId>,
    pub resolved_dependencies: Vec<(String, PluginManifest)>,
    pub downloaded_plugins: Vec<String>,
    pub validated_plugins: Vec<String>,
    pub installed_plugins: Vec<String>,
    pub configured_plugins: Vec<String>,
    pub provisioning_log: Vec<String>,
    pub errors: Vec<String>,
}

/// The texts of a list of strings.
pub open spec fn string_texts(v: Seq<String>) -> Seq<Seq<char>> {
    Seq::new(v.len(), |i: int| v[i]@)
}

impl ProvisioningState {
    /// A run that has not started: idle, with nothing recorded.
    pub fn new() -> (s: ProvisioningState)
        ensures
            s.phase == ProvisioningPhase::Idle,
            s.plugin_id is None,
            s.resolved_dependencies@.len() == 0,
            s.downloaded_plugins@.len() == 0,
            s.validated_plugins@.len() == 0,
            s.installed_plugins@.len() == 0,
            s.configured_plugins@.len() == 0,
            s.provisioning_log@.len() == 0,
            s.errors@.len() == 0,
    {
        ProvisioningState {
            phase: ProvisioningPhase::Idle,
            plugin_id: None,
            resolved_dependencies: Vec::new(),
            downloaded_plugins: Vec::new(),
            validated_plugins: Vec::new(),
            installed_plugins: Vec::new(),
            configured_plugins: Vec::new(),
            provisioning_log: Vec::new(),
            errors: Vec::new(),
        }
    }

    /// Append `message` to the log.
    pub fn log(&mut self, message: &str)
        ensures
            string_texts(final(self).provisioning_log@) == string_texts(old(self).provisioning_log@).push(
                message@,
            ),
            final(self).errors@ == old(self).errors@,
            final(self).phase == old(self).phase,
    {
        let ghost before = self.provisioning_log@;
        self.provisioning_log.push(message.to_owned());
        assert(string_texts(self.provisioning_log@) =~= string_texts(before).push(message@));
    }

    /// Append `message` to the errors.
    pub fn error(&mut self, message: &str)
        ensures
            string_texts(final(self).errors@) == string_texts(old(self).errors@).push(message@),
            final(self).provisioning_log@ == old(self).provisioning_log@,
            final(self).phase == old(self).phase,
    {
        let ghost before = self.errors@;
        self.errors.push(message.to_owned());
        assert(string_texts(self.errors@) =~= string_texts(before).push(message@));
    }

    /// Enter `phase` and log `message`.
    fn enter(&mut self, phase: ProvisioningPhase, message: &str)
        ensures
            final(self).phase == phase,
            string_texts(final(self).provisioning_log@) == string_texts(old(self).provisioning_log@).push(
                message@,
            ),
            final(self).errors@ == old(self).errors@,
    {
        self.log(message);
        self.phase = phase;
    }

    /// The run starts from the plugin sources in `source`: it resolves
    /// dependencies first.
    pub fn begin(&mut self, source: &str)
        ensures
            final(self).phase == ProvisioningPhase::ResolvingDependencies,
            string_texts(final(self).provisioning_log@) == string_texts(old(self).provisioning_log@).push(
                "Starting provisioning from: "@ + source@,
            ),
            final(self).errors@ == old(self).errors@,
    {
        let mut m = String::from_str("Starting provisioning from: ");
        m.append(source);
        self.enter(ProvisioningPhase::ResolvingDependencies, m.as_str());
    }

    /// The manifest of plugin `id` was read: it is validated next.
    pub fn manifest_loaded(&mut self, id: &PluginId)
        ensures
            final(self).phase == ProvisioningPhase::Validating,
            string_texts(final(self).provisioning_log@) == string_texts(old(self).provisioning_log@).push(
                "Loaded manifest for plugin: "@ + id.text(),
            ),
            final(self).errors@ == old(self).errors@,
    {
        let mut m = String::from_str("Loaded manifest for plugin: ");
        m.append(id.as_str());
        self.enter(ProvisioningPhase::Validating, m.as_str());
    }

    /// The manifest passed validation.
    pub fn manifest_validated(&mut self)
        ensures
            final(self).phase == old(self).phase,
            string_texts(final(self).provisioning_log@) == string_texts(old(self).provisioning_log@).push(
                "Manifest validated successfully"@,
            ),
            final(self).errors@ == old(self).errors@,
    {
        self.log("Manifest validated successfully");
    }

    /// The plugin's files are being copied.
    pub fn installing(&mut self)
        ensures
            final(self).phase == ProvisioningPhase::Installing,
            string_texts(final(self).provisioning_log@) == string_texts(old(self).provisioning_log@).push(
                "Copying plugin files..."@,
            ),
            final(self).errors@ == old(self).errors@,
    {
        self.enter(ProvisioningPhase::Installing, "Copying plugin files...");
    }

    /// The plugin's module was copied to `destination`.
    pub fn wasm_copied(&mut self, destination: &str)
        ensures
            final(self).phase == old(self).phase,
            string_texts(final(self).provisioning_log@) == string_texts(old(self).provisioning_log@).push(
                "WASM module copied: "@ + destination@,
            ),
            final(self).errors@ == old(self).errors@,
    {
        let mut m = String::from_str("WASM module copied: ");
        m.append(destination);
        self.log(m.as_str());
    }

    /// The plugin's configuration is being written.
    pub fn configuring(&mut self)
        ensures
            final(self).phase == ProvisioningPhase::Configuring,
            string_texts(final(self).provisioning_log@) == string_texts(old(self).provisioning_log@).push(
                "Creating plugin configuration..."@,
            ),
            final(self).errors@ == old(self).errors@,
    {
        self.enter(ProvisioningPhase::Configuring, "Creating plugin configuration...");
    }

    /// The run is done.
    pub fn complete(&mut self)
        ensures
            final(self).phase == ProvisioningPhase::Complete,
            string_texts(final(self).provisioning_log@) == string_texts(old(self).provisioning_log@).push(
                "Provisioning complete"@,
            ),
            final(self).errors@ == old(self).errors@,
    {
        self.enter(ProvisioningPhase::Complete, "Provisioning complete");
    }

    /// Whether the run has completed.
    pub fn is_complete(&self) -> (b: bool)
        ensures
            b == (self.phase == ProvisioningPhase::Complete),
    {
        self.phase == ProvisioningPhase::Complete
    }

    /// Whether the run has failed.
    pub fn is_failed(&self) -> (b: bool)
        ensures
            b == (self.phase == ProvisioningPhase::Failed),
    {
        self.phase == ProvisioningPhase::Failed
    }
}

/// What a completed deployment reports.
pub struct DeploymentResult {
    pub plugin_id: PluginId,
    pub plugin_name: String,
    pub version: PluginVersion,
    pub target_directory: String,
    pub capabilities_granted: Vec<PluginCapability>,
    pub dependencies_resolved: Vec<String>,
    pub checksum: String,
    pub timestamp: String,
}

impl DeploymentResult {
    /// The report of deploying the plugin of `manifest` into `target`,
    /// with its module's checksum and the time of deployment: every
    /// capability the manifest requests is granted, and no dependency was
    /// resolved.
    pub fn for_manifest(manifest: &PluginManifest, target: String, checksum: String, timestamp: String) -> (r: DeploymentResult)
        ensures
            r.plugin_id.text() == manifest.id.text(),
            r.plugin_name@ == manifest.name@,
            r.version == manifest.version,
            r.target_directory@ == target@,
            r.capabilities_granted@ == manifest.capabilities@,
            r.dependencies_resolved@.len() == 0,
            r.checksum@ == checksum@,
            r.timestamp@ == timestamp@,
    {
        let mut caps: Vec<PluginCapability> = Vec::new();
        let mut i: usize = 0;
        while i < manifest.capabilities.len()
            invariant
                i <= manifest.capabilities@.len(),
                caps@ == manifest.capabilities@.take(i as int),
            decreases manifest.capabilities@.len() - i,
        {
            caps.push(manifest.capabilities[i]);
            i += 1;
            assert(caps@ =~= manifest.capabilities@.take(i as int));
        }
        assert(manifest.capabilities@.take(i as int) =~= manifest.capabilities@);
        DeploymentResult {
            plugin_id: manifest.id.clone(),
            plugin_name: manifest.name.clone(),
            version: manifest.version,
            target_directory: target,
            capabilities_granted: caps,
            dependencies_resolved: Vec::new(),
            checksum,
            timestamp,
        }
    }
}

/// The configuration written beside a deployed plugin.
pub struct PluginConfig {
    pub id: PluginId,
    pub enabled: bool,
    pub capabilities: Vec<PluginCapability>,
    pub granted_capabilities: Vec<PluginCapability>,
    pub priority: u32,
}

impl PluginConfig {
    /// The configuration of a freshly deployed plugin: enabled, at
    /// priority 100, granted every capability its manifest requests.
    pub fn for_manifest(manifest: &PluginManifest) -> (c: PluginConfig)
        ensures
            c.id.text() == manifest.id.text(),
            c.enabled,
            c.capabilities@ == manifest.capabilities@,
            c.granted_capabilities@ == manifest.capabilities@,
            c.priority == 100,
    {
        let mut caps: Vec<PluginCapability> = Vec::new();
        let mut i: usize = 0;
        while i < manifest.capabilities.len()
            invariant
                i <= manifest.capabilities@.len(),
                caps@ == manifest.capabilities@.take(i as int),
            decreases manifest.capabilities@.len() - i,
        {
            caps.push(manifest.capabilities[i]);
            i += 1;
            assert(caps@ =~= manifest.capabilities@.take(i as int));
        }
        assert(manifest.capabilities@.take(i as int) =~= manifest.capabilities@);
        let granted = caps.clone();
        assert(granted@ =~= caps@);
        PluginConfig {
            id: manifest.id.clone(),
            enabled: true,
            capabilities: caps,
            granted_capabilities: granted,
            priority: 100,
        }
    }
}

/// Whether the walk over the plugin's sources copies the file at `rel`
/// (relative to the source directory): the manifests and the module,
/// `wasm_entry`, are copied on their own, with a checksum, and skipped.
pub fn copied_by_walk(rel: &str, wasm_entry: &str) -> (b: bool)
    ensures
        b == !(rel@ == "plugin.toml"@ || rel@ == "plugin.json"@ || rel@ == wasm_entry@),
{
    let t = crate::text::str_equal(rel, "plugin.toml");
    let j = crate::text::str_equal(rel, "plugin.json");
    let w = crate::text::str_equal(rel, wasm_entry);
    !(t || j || w)
}

//==============================================================================
// Checksums
//==============================================================================

/// The SHA-256 digest of `data`, as `sha2::Sha256` computes it.
pub uninterp spec fn sha256_digest(data: Seq<u8>) -> Seq<u8>;

/// `sha2::Sha256::digest`: the 32-byte SHA-256 digest of `data`.
#[verifier::external_body]
fn sha256(data: &[u8]) -> (d: Vec<u8>)
    ensures
        d@ == sha256_digest(data@),
        d@.len() == 32,
{
    sha2::Sha256::digest(data).to_vec()
}

/// Lower-case hexadecimal text of `b`, two digits per byte, in order.
pub open spec fn hex_text(b: Seq<u8>) -> Seq<char>
    decreases b.len(),
{
    if b.len() == 0 {
        Seq::empty()
    } else {
        hex_text(b.drop_last()) + seq![
            hex_digit((b.last() / 16) as nat),
            hex_digit((b.last() % 16) as nat),
        ]
    }
}

/// `hex::encode`: each byte as two lower-case hexadecimal digits.
#[verifier::external_body]
fn hex_encode(data: &[u8]) -> (s: String)
    ensures
        s@ == hex_text(data@),
{
    hex::encode(data)
}

/// The checksum the provisioner records for a file's bytes: the
/// lower-case hexadecimal SHA-256 digest.
pub fn checksum_hex(data: &[u8]) -> (s: String)
    ensures
        s@ == hex_text(sha256_digest(data@)),
        s@.len() == 64,
{
    let d = sha256(data);
    proof {
        lemma_hex_text_len(d@);
    }
    hex_encode(d.as_slice())
}

proof fn lemma_hex_text_len(b: Seq<u8>)
    ensures
        hex_text(b).len() == 2 * b.len(),
    decreases b.len(),
{
    if b.len() > 0 {
        lemma_hex_text_len(b.drop_last());
    }
}


/// Check a copy by its checksums: the source's checksum when they agree,
/// else the mismatch message naming both.
pub fn check_copy(src_checksum: &str, dst_checksum: &str) -> (r: Result<String, String>)
    ensures
        src_checksum@ == dst_checksum@ ==> (r matches Ok(c) && c@ == src_checksum@),
        src_checksum@ != dst_checksum@ ==> (r matches Err(m) && m@ == "Checksum mismatch after copy: src="@
            + src_checksum@ + ", dst="@ + dst_checksum@),
{
    if crate::text::str_equal(src_checksum, dst_checksum) {
        Ok(src_checksum.to_owned())
    } else {
        let mut m = String::from_str("Checksum mismatch after copy: src=");
        m.append(src_checksum);
        m.append(", dst=");
        m.append(dst_checksum);
        Err(m)
    }
}

//==============================================================================
// Paths
//==============================================================================

/// `rel` joined onto `base` as a path: an absolute `rel` replaces `base`,
/// an empty `base` gives `rel`, and otherwise one `/` separates them.
pub open spec fn join_path(base: Seq<char>, rel: Seq<char>) -> Seq<char> {
    if rel.len() > 0 && rel[0] == '/' {
        rel
    } else if base.len() == 0 {
        rel
    } else if base.last() == '/' {
        base + rel
    } else {
        base + "/"@ + rel
    }
}

/// Join `rel` onto `base` as a path.
pub fn join(base: &str, rel: &str) -> (r: String)
    ensures
        r@ == join_path(base@, rel@),
{
    let b = crate::text::chars_of(base);
    let r = crate::text::chars_of(rel);
    if r.len() > 0 && r[0] == '/' {
        rel.to_owned()
    } else if b.len() == 0 {
        rel.to_owned()
    } else if b[b.len() - 1] == '/' {
        let mut s = base.to_owned();
        s.append(rel);
        s
    } else {
        let mut s = base.to_owned();
        s.append("/");
        s.append(rel);
        s
    }
}

/// The standard directory deployed plugins live in.
pub fn get_plugin_dir() -> (s: String)
    ensures
        s@ == "src/plugins/available"@,
{
    "src/plugins/available".to_owned()
}

/// The directory a plugin is deployed to: its id under the target.
pub fn plugin_target(target_dir: &str, id: &PluginId) -> (s: String)
    ensures
        s@ == join_path(target_dir@, id.text()),
{
    join(target_dir, id.as_str())
}

/// The module file of a plugin: its entry name in the source directory.
pub fn get_wasm_file(dir: &str, manifest: &PluginManifest) -> (s: String)
    ensures
        s@ == join_path(dir@, manifest.wasm_entry@),
{
    join(dir, manifest.wasm_entry.as_str())
}

/// The directory `remove` acts on: an absolute argument as is, else the
/// argument under the target directory.
pub fn removal_path(plugin_id_or_path: &str, target_dir: &str) -> (s: String)
    ensures
        s@ == join_path(target_dir@, plugin_id_or_path@),
{
    join(target_dir, plugin_id_or_path)
}

} // verus!
