//! The plugin sandbox: a plugin's identity and manifest, the capabilities
//! granted to it (a subset of those its manifest requests), its key-value
//! state, and whether it is loaded.

use vstd::prelude::*;
use crate::plugins::error::{PluginError, PluginResult};
use crate::plugins::manifest::{
    vec_contains, ManifestModel, PluginCapability, PluginId, PluginManifest,
};

verus! {

/// `Debug` name of a capability.
pub open spec fn capability_name(c: PluginCapability) -> Seq<char> {
    match c {
        PluginCapability::CanvasRead => "CanvasRead"@,
        PluginCapability::CanvasWrite => "CanvasWrite"@,
        PluginCapability::LayerAccess => "LayerAccess"@,
        PluginCapability::SelectionAccess => "SelectionAccess"@,
        PluginCapability::FileAccess => "FileAccess"@,
        PluginCapability::NetworkAccess => "NetworkAccess"@,
        PluginCapability::UserInterface => "UserInterface"@,
        PluginCapability::PersistentStorage => "PersistentStorage"@,
    }
}

fn capability_str(c: PluginCapability) -> (s: &'static str)
    ensures
        s@ == capability_name(c),
{
    match c {
        PluginCapability::CanvasRead => "CanvasRead",
        PluginCapability::CanvasWrite => "CanvasWrite",
        PluginCapability::LayerAccess => "LayerAccess",
        PluginCapability::SelectionAccess => "SelectionAccess",
        PluginCapability::FileAccess => "FileAccess",
        PluginCapability::NetworkAccess => "NetworkAccess",
        PluginCapability::UserInterface => "UserInterface",
        PluginCapability::PersistentStorage => "PersistentStorage",
    }
}

/// The value stored under `key` in the entries `st`, if any.
pub open spec fn state_get(st: Seq<(Seq<char>, Seq<char>)>, key: Seq<char>) -> Option<Seq<char>>
    decreases st.len(),
{
    if st.len() == 0 {
        None
    } else if st.last().0 == key {
        Some(st.last().1)
    } else {
        state_get(st.drop_last(), key)
    }
}

/// A sandboxed plugin instance.
pub struct WasmSandbox {
    id: PluginId,
    manifest: PluginManifest,
    granted_capabilities: Vec<PluginCapability>,
    state: Vec<(String, String)>,
    loaded: bool,
}

impl WasmSandbox {
    pub closed spec fn id_text(&self) -> Seq<char> {
        self.id.text()
    }

    pub closed spec fn manifest_model(&self) -> ManifestModel {
        self.manifest.model()
    }

    /// The capabilities granted so far, in order of grant.
    pub closed spec fn granted(&self) -> Seq<PluginCapability> {
        self.granted_capabilities@
    }

    /// The plugin's key-value state entries.
    pub closed spec fn state_entries(&self) -> Seq<(Seq<char>, Seq<char>)> {
        Seq::new(self.state@.len(), |i: int| (self.state@[i].0@, self.state@[i].1@))
    }

    pub closed spec fn is_loaded_spec(&self) -> bool {
        self.loaded
    }

    /// A sandbox for the plugin of `manifest`: nothing granted, no state,
    /// not loaded.
    pub fn new(manifest: PluginManifest) -> (s: WasmSandbox)
        ensures
            s.id_text() == manifest.model().id,
            s.manifest_model() == manifest.model(),
            s.granted() == Seq::<PluginCapability>::empty(),
            s.state_entries() == Seq::<(Seq<char>, Seq<char>)>::empty(),
            !s.is_loaded_spec(),
    {
        let s = WasmSandbox {
            id: manifest.id.clone(),
            manifest,
            granted_capabilities: Vec::new(),
            state: Vec::new(),
            loaded: false,
        };
        assert(s.state_entries() =~= Seq::<(Seq<char>, Seq<char>)>::empty());
        s
    }

    /// The plugin id.
    pub fn id(&self) -> (p: &PluginId)
        ensures
            p.text() == self.id_text(),
    {
        &self.id
    }

    /// The plugin manifest.
    pub fn manifest(&self) -> (m: &PluginManifest)
        ensures
            m.model() == self.manifest_model(),
    {
        &self.manifest
    }

    /// Grant `cap`, which the manifest must request; granting twice is
    /// the same as once.
    pub fn grant_capability(&mut self, cap: PluginCapability) -> (r: PluginResult<()>)
        ensures
            final(self).id_text() == old(self).id_text(),
            final(self).manifest_model() == old(self).manifest_model(),
            final(self).state_entries() == old(self).state_entries(),
            final(self).is_loaded_spec() == old(self).is_loaded_spec(),
            !old(self).manifest_model().capabilities.contains(cap) ==> (r matches Err(
                PluginError::ManifestValidation(msg),
            ) && msg@ == "Cannot grant capability "@ + capability_name(cap)
                + " - not requested in manifest"@) && final(self).granted() == old(self).granted(),
            old(self).manifest_model().capabilities.contains(cap) ==> r is Ok && final(self).granted()
                == if old(self).granted().contains(cap) {
                old(self).granted()
            } else {
                old(self).granted().push(cap)
            },
    {
        if !self.manifest.has_capability(cap) {
            let mut msg = String::from_str("Cannot grant capability ");
            msg.append(capability_str(cap));
            msg.append(" - not requested in manifest");
            return Err(PluginError::ManifestValidation(msg));
        }
        if !vec_contains(&self.granted_capabilities, cap) {
            self.granted_capabilities.push(cap);
        }
        Ok(())
    }

    /// Whether `cap` has been granted.
    pub fn has_capability(&self, cap: PluginCapability) -> (b: bool)
        ensures
            b == self.granted().contains(cap),
    {
        vec_contains(&self.granted_capabilities, cap)
    }

    /// Load the plugin's module from `wasm_path`, which the caller has
    /// found to exist (`exists`) or not.
    pub fn load(&mut self, wasm_path: &str, exists: bool) -> (r: PluginResult<()>)
        ensures
            final(self).id_text() == old(self).id_text(),
            final(self).manifest_model() == old(self).manifest_model(),
            final(self).granted() == old(self).granted(),
            final(self).state_entries() == old(self).state_entries(),
            !exists ==> (r matches Err(PluginError::IoError(p, m)) && p@ == wasm_path@ && m@
                == "WASM file not found"@) && final(self).is_loaded_spec()
                == old(self).is_loaded_spec(),
            exists ==> r is Ok && final(self).is_loaded_spec(),
    {
        if !exists {
            return Err(PluginError::io_error(wasm_path, "WASM file not found"));
        }
        self.loaded = true;
        Ok(())
    }

    /// Unload the plugin, clearing its state; a no-op if not loaded.
    pub fn unload(&mut self) -> (r: PluginResult<()>)
        ensures
            r is Ok,
            !final(self).is_loaded_spec(),
            final(self).id_text() == old(self).id_text(),
            final(self).manifest_model() == old(self).manifest_model(),
            final(self).granted() == old(self).granted(),
            old(self).is_loaded_spec() ==> final(self).state_entries() == Seq::<
                (Seq<char>, Seq<char>),
            >::empty(),
            !old(self).is_loaded_spec() ==> final(self).state_entries() == old(self).state_entries(),
    {
        if !self.loaded {
            return Ok(());
        }
        self.loaded = false;
        self.state = Vec::new();
        assert(self.state_entries() =~= Seq::<(Seq<char>, Seq<char>)>::empty());
        Ok(())
    }

    /// Whether the plugin is loaded.
    pub fn is_loaded(&self) -> (b: bool)
        ensures
            b == self.is_loaded_spec(),
    {
        self.loaded
    }

    /// Invoke a plugin function: in this build, a loaded plugin echoes its
    /// arguments; an unloaded one is an error.
    pub fn invoke(&self, function: &str, args: &[u8]) -> (r: PluginResult<Vec<u8>>)
        ensures
            !self.is_loaded_spec() ==> (r matches Err(PluginError::PluginError(m)) && m@
                == "Plugin not loaded"@),
            self.is_loaded_spec() ==> (r matches Ok(v) && v@ == args@),
    {
        if !self.loaded {
            return Err(PluginError::PluginError("Plugin not loaded".to_owned()));
        }
        Ok(vstd::slice::slice_to_vec(args))
    }

    /// The state value stored under `key`.
    pub fn get_state(&self, key: &str) -> (r: Option<String>)
        ensures
            match state_get(self.state_entries(), key@) {
                Some(v) => r matches Some(s) && s@ == v,
                None => r is None,
            },
    {
        let mut i = self.state.len();
        assert(self.state_entries().take(i as int) =~= self.state_entries());
        while i > 0
            invariant
                i <= self.state@.len(),
                state_get(self.state_entries(), key@) == state_get(
                    self.state_entries().take(i as int),
                    key@,
                ),
            decreases i,
        {
            let e = &self.state[i - 1];
            proof {
                assert(self.state_entries().take(i as int).drop_last() =~= self.state_entries().take(
                    i - 1,
                ));
                assert(self.state_entries().take(i as int).last() == (e.0@, e.1@));
            }
            if string_eq(&e.0, key) {
                return Some(e.1.clone());
            }
            i -= 1;
        }
        None
    }

    /// Store `value` under `key`, replacing an earlier value.
    pub fn set_state(&mut self, key: String, value: String) -> (r: PluginResult<()>)
        ensures
            r is Ok,
            final(self).state_entries() == old(self).state_entries().push((key@, value@)),
            final(self).id_text() == old(self).id_text(),
            final(self).manifest_model() == old(self).manifest_model(),
            final(self).granted() == old(self).granted(),
            final(self).is_loaded_spec() == old(self).is_loaded_spec(),
    {
        let ghost before = self.state_entries();
        let ghost k = key@;
        let ghost v = value@;
        self.state.push((key, value));
        assert(self.state_entries() =~= before.push((k, v)));
        Ok(())
    }

    /// Remove all state.
    pub fn clear_state(&mut self)
        ensures
            final(self).state_entries() == Seq::<(Seq<char>, Seq<char>)>::empty(),
            final(self).id_text() == old(self).id_text(),
            final(self).manifest_model() == old(self).manifest_model(),
            final(self).granted() == old(self).granted(),
            final(self).is_loaded_spec() == old(self).is_loaded_spec(),
    {
        self.state = Vec::new();
        assert(self.state_entries() =~= Seq::<(Seq<char>, Seq<char>)>::empty());
    }
}

/// What is read back after a write: `get_state(k)` after `set_state(k, v)`
/// is `v`, and other keys are unaffected.
pub proof fn law_state_read_after_write(
    st: Seq<(Seq<char>, Seq<char>)>,
    k: Seq<char>,
    v: Seq<char>,
    other: Seq<char>,
)
    ensures
        state_get(st.push((k, v)), k) == Some(v),
        other != k ==> state_get(st.push((k, v)), other) == state_get(st, other),
{
    assert(st.push((k, v)).drop_last() =~= st);
}

/// A sandbox grants only what its manifest requests: if every granted
/// capability was requested before a grant, the same holds after it.
pub proof fn law_grants_within_manifest(
    granted: Seq<PluginCapability>,
    requested: Seq<PluginCapability>,
    cap: PluginCapability,
)
    requires
        forall|c: PluginCapability| granted.contains(c) ==> requested.contains(c),
        requested.contains(cap),
    ensures
        forall|c: PluginCapability|
            (if granted.contains(cap) {
                granted
            } else {
                granted.push(cap)
            }).contains(c) ==> requested.contains(c),
{
    assert forall|c: PluginCapability| granted.push(cap).contains(c) implies requested.contains(c) by {
        let k = choose|k: int| 0 <= k < granted.push(cap).len() && #[trigger] granted.push(cap)[k] == c;
        if k < granted.len() {
            assert(granted[k] == c);
        }
    }
}

fn string_eq(a: &String, b: &str) -> (r: bool)
    ensures
        r == (a@ == b@),
{
    let x = crate::text::chars_of(a.as_str());
    let y = crate::text::chars_of(b);
    if x.len() != y.len() {
        return false;
    }
    let mut i: usize = 0;
    while i < x.len()
        invariant
            i <= x@.len(),
            x@.len() == y@.len(),
            x@ == a@,
            y@ == b@,
            forall|j: int| 0 <= j < i ==> x@[j] == y@[j],
        decreases x@.len() - i,
    {
        if x[i] != y[i] {
            return false;
        }
        i += 1;
    }
    assert(x@ =~= y@);
    true
}

} // verus!
