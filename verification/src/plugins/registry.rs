//! The plugin registry's bookkeeping: which plugins are loaded, their
//! manifests, the capabilities granted to each, and the ids of built-in
//! plugins. The plugins themselves are whatever the caller stores.

use vstd::prelude::*;
use crate::plugins::error::{PluginError, PluginResult};
use crate::plugins::manifest::{vec_contains, PluginCapability, PluginId, PluginManifest, PluginType};
use crate::text::{decimal, str_equal, u64_to_decimal};

verus! {

//==============================================================================
// Rows keyed by plugin id
//==============================================================================

/// The index of key `k` in `keys`, counting from the back; -1 when absent.
pub open spec fn key_index(keys: Seq<Seq<char>>, k: Seq<char>) -> int
    decreases keys.len(),
{
    if keys.len() == 0 {
        -1
    } else if keys.last() == k {
        keys.len() - 1
    } else {
        key_index(keys.drop_last(), k)
    }
}

/// No key occurs twice.
pub open spec fn distinct_keys(keys: Seq<Seq<char>>) -> bool {
    forall|i: int, j: int| 0 <= i < j < keys.len() ==> keys[i] != keys[j]
}

proof fn lemma_key_index(keys: Seq<Seq<char>>, k: Seq<char>)
    ensures
        -1 <= key_index(keys, k) < keys.len(),
        key_index(keys, k) >= 0 ==> keys[key_index(keys, k)] == k,
        key_index(keys, k) == -1 <==> !keys.contains(k),
        distinct_keys(keys) ==> forall|j: int| 0 <= j < keys.len() && keys[j] == k ==> key_index(keys, k) == j,
    decreases keys.len(),
{
    if keys.len() > 0 {
        let init = keys.drop_last();
        lemma_key_index(init, k);
        if keys.last() != k {
            if keys.contains(k) {
                let j = choose|j: int| 0 <= j < keys.len() && keys[j] == k;
                assert(init[j] == k);
            }
            if init.contains(k) {
                let j = choose|j: int| 0 <= j < init.len() && init[j] == k;
                assert(keys[j] == k);
            }
        } else {
            assert(keys[keys.len() - 1] == k);
        }
        if distinct_keys(keys) {
            assert(distinct_keys(init));
        }
    }
}

/// Rows keyed by plugin id, no id twice, in the order they were added.
pub struct IdTable<T> {
    ids: Vec<PluginId>,
    vals: Vec<T>,
}

/// The texts of a list of ids.
pub open spec fn id_texts(ids: Seq<PluginId>) -> Seq<Seq<char>> {
    Seq::new(ids.len(), |i: int| ids[i].text())
}

impl<T> IdTable<T> {
    /// The ids, in order.
    pub closed spec fn keys(&self) -> Seq<Seq<char>> {
        id_texts(self.ids@)
    }

    /// The rows' values, in the order of `keys`.
    pub closed spec fn values(&self) -> Seq<T> {
        self.vals@
    }

    /// No id twice, one value per id.
    pub closed spec fn wf(&self) -> bool {
        &&& distinct_keys(self.keys())
        &&& self.ids@.len() == self.vals@.len()
    }

    /// The value held for each id.
    pub open spec fn map(&self) -> Map<Seq<char>, T> {
        Map::new(|k: Seq<char>| self.keys().contains(k), |k: Seq<char>| self.values()[key_index(self.keys(), k)])
    }

    /// An empty table.
    pub fn new() -> (t: Self)
        ensures
            t.wf(),
            t.keys() == Seq::<Seq<char>>::empty(),
            t.map() == Map::<Seq<char>, T>::empty(),
    {
        let t = IdTable { ids: Vec::new(), vals: Vec::new() };
        assert(t.keys() =~= Seq::<Seq<char>>::empty());
        assert(t.map() =~= Map::<Seq<char>, T>::empty());
        t
    }

    /// The number of rows.
    pub fn len(&self) -> (n: usize)
        requires
            self.wf(),
        ensures
            n == self.keys().len(),
            n == self.map().len(),
    {
        proof {
            self.lemma_map_len();
        }
        self.ids.len()
    }

    /// One value per id.
    pub proof fn lemma_lens(&self)
        requires
            self.wf(),
        ensures
            self.keys().len() == self.values().len(),
    {
    }

    proof fn lemma_map_len(&self)
        requires
            self.wf(),
        ensures
            self.map().dom() == self.keys().to_set(),
            self.map().len() == self.keys().len(),
    {
        assert(self.map().dom() =~= self.keys().to_set());
        self.keys().unique_seq_to_set();
    }

    /// The position of `id`, if it has a row.
    pub fn find(&self, id: &str) -> (r: Option<usize>)
        requires
            self.wf(),
        ensures
            key_index(self.keys(), id@) >= 0 ==> (r matches Some(i) && i == key_index(self.keys(), id@)),
            key_index(self.keys(), id@) < 0 ==> r is None,
            r matches Some(i) ==> i < self.values().len(),
    {
        let mut i = self.ids.len();
        assert(self.keys().take(i as int) =~= self.keys());
        while i > 0
            invariant
                self.wf(),
                i <= self.ids@.len(),
                key_index(self.keys(), id@) == key_index(self.keys().take(i as int), id@),
            decreases i,
        {
            proof {
                assert(self.keys().take(i as int).drop_last() =~= self.keys().take(i - 1));
                assert(self.keys().take(i as int).last() == self.ids@[i - 1].text());
            }
            if str_equal(self.ids[i - 1].as_str(), id) {
                return Some(i - 1);
            }
            i -= 1;
        }
        None
    }

    /// The value held for `id`.
    pub fn get(&self, id: &str) -> (r: Option<&T>)
        requires
            self.wf(),
        ensures
            self.map().contains_key(id@) ==> (r matches Some(v) && *v == self.map()[id@]),
            !self.map().contains_key(id@) ==> r is None,
    {
        proof {
            lemma_key_index(self.keys(), id@);
        }
        match self.find(id) {
            Some(i) => Some(&self.vals[i]),
            None => None,
        }
    }

    /// The value held for `id`, to change in place.
    pub fn get_mut(&mut self, id: &str) -> (r: Option<&mut T>)
        requires
            old(self).wf(),
        ensures
            !old(self).map().contains_key(id@) ==> r is None && *final(self) == *old(self),
            old(self).map().contains_key(id@) ==> r is Some,
            r matches Some(v) ==> *v == old(self).map()[id@] && final(self).wf() && final(self).keys() == old(
                self,
            ).keys() && final(self).map() == old(self).map().insert(id@, *final(v)),
    {
        proof {
            lemma_key_index(self.keys(), id@);
        }
        let ghost keys0 = self.keys();
        let ghost vals0 = self.values();
        match self.find(id) {
            Some(i) => {
                let r = &mut self.vals[i];
                proof {
                    assert forall|q: Seq<char>| keys0.contains(q) implies vals0.update(i as int, *final(r))[key_index(
                        keys0,
                        q,
                    )] == old(self).map().insert(id@, *final(r))[q] by {
                        lemma_key_index(keys0, q);
                    }
                    assert(Map::new(
                        |k: Seq<char>| keys0.contains(k),
                        |k: Seq<char>| vals0.update(i as int, *final(r))[key_index(keys0, k)],
                    ) =~= old(self).map().insert(id@, *final(r)));
                }
                Some(r)
            },
            None => None,
        }
    }

    /// Hold `value` for `id`: its row is updated in place, or a row is
    /// added at the end.
    pub fn upsert(&mut self, id: PluginId, value: T)
        requires
            old(self).wf(),
        ensures
            final(self).wf(),
            final(self).map() == old(self).map().insert(id.text(), value),
            old(self).keys().contains(id.text()) ==> final(self).keys() == old(self).keys(),
            !old(self).keys().contains(id.text()) ==> final(self).keys() == old(self).keys().push(id.text()),
    {
        let ghost k = id.text();
        let ghost keys0 = self.keys();
        let ghost vals0 = self.values();
        proof {
            lemma_key_index(keys0, k);
        }
        match self.find(id.as_str()) {
            Some(i) => {
                assert(keys0[i as int] == k);
                self.vals.set(i, value);
                self.ids.set(i, id);
                assert(self.keys() =~= keys0);
                assert(self.map() =~= old(self).map().insert(k, value)) by {
                    assert forall|q: Seq<char>| #[trigger] self.keys().contains(q) implies self.values()[key_index(
                        self.keys(),
                        q,
                    )] == old(self).map().insert(k, value)[q] by {
                        lemma_key_index(keys0, q);
                    }
                }
            },
            None => {
                assert(!keys0.contains(k));
                self.ids.push(id);
                self.vals.push(value);
                assert(self.keys() =~= keys0.push(k));
                proof {
                    assert forall|a: int, b: int| 0 <= a < b < self.keys().len() implies self.keys()[a]
                        != self.keys()[b] by {
                        if b == keys0.len() {
                            assert(keys0.contains(keys0[a]));
                        }
                    }
                }
                assert(self.map() =~= old(self).map().insert(k, value)) by {
                    assert forall|q: Seq<char>| #[trigger] self.keys().contains(q) implies self.values()[key_index(
                        self.keys(),
                        q,
                    )] == old(self).map().insert(k, value)[q] by {
                        lemma_key_index(keys0, q);
                        lemma_key_index(self.keys(), q);
                        if q != k {
                            let j = choose|j: int| 0 <= j < self.keys().len() && self.keys()[j] == q;
                            assert(keys0[j] == q);
                        }
                    }
                    assert forall|q: Seq<char>| old(self).map().insert(k, value).dom().contains(q) implies #[trigger] self.keys().contains(q) by {
                        if q == k {
                            assert(self.keys()[keys0.len() as int] == k);
                        } else {
                            let j = choose|j: int| 0 <= j < keys0.len() && keys0[j] == q;
                            assert(self.keys()[j] == q);
                        }
                    }
                }
            },
        }
    }

    /// Drop the row of `id`, if any; the other rows keep their order.
    pub fn remove(&mut self, id: &str)
        requires
            old(self).wf(),
        ensures
            final(self).wf(),
            final(self).map() == old(self).map().remove(id@),
            final(self).keys() == (if old(self).keys().contains(id@) {
                old(self).keys().remove(key_index(old(self).keys(), id@))
            } else {
                old(self).keys()
            }),
    {
        let ghost keys0 = self.keys();
        let ghost vals0 = self.values();
        proof {
            lemma_key_index(keys0, id@);
        }
        match self.find(id) {
            Some(i) => {
                assert(keys0[i as int] == id@);
                let _ = self.ids.remove(i);
                let _ = self.vals.remove(i);
                assert(self.keys() =~= keys0.remove(i as int));
                proof {
                    assert forall|a: int, b: int| 0 <= a < b < self.keys().len() implies self.keys()[a]
                        != self.keys()[b] by {
                        let a0 = if a < i { a } else { a + 1 };
                        let b0 = if b < i { b } else { b + 1 };
                        assert(self.keys()[a] == keys0[a0]);
                        assert(self.keys()[b] == keys0[b0]);
                    }
                }
                assert(self.map() =~= old(self).map().remove(id@)) by {
                    assert forall|q: Seq<char>| #[trigger] self.keys().contains(q) implies q != id@
                        && keys0.contains(q) && self.values()[key_index(self.keys(), q)] == vals0[key_index(
                        keys0,
                        q,
                    )] by {
                        lemma_key_index(keys0, q);
                        lemma_key_index(self.keys(), q);
                        let j = choose|j: int| 0 <= j < self.keys().len() && self.keys()[j] == q;
                        let j0 = if j < i { j } else { j + 1 };
                        assert(keys0[j0] == q);
                        assert(j0 != i);
                        assert(key_index(keys0, q) == j0);
                        assert(key_index(self.keys(), q) == j);
                    }
                    assert forall|q: Seq<char>| q != id@ && #[trigger] keys0.contains(q) implies self.keys().contains(
                        q,
                    ) by {
                        let j = choose|j: int| 0 <= j < keys0.len() && keys0[j] == q;
                        assert(j != i);
                        let j1 = if j < i { j } else { j - 1 };
                        assert(self.keys()[j1] == q);
                    }
                }
            },
            None => {
                assert(self.map() =~= old(self).map().remove(id@));
            },
        }
    }

    /// Drop every row.
    pub fn clear(&mut self)
        ensures
            final(self).wf(),
            final(self).keys() == Seq::<Seq<char>>::empty(),
            final(self).map() == Map::<Seq<char>, T>::empty(),
    {
        self.ids.clear();
        self.vals.clear();
        assert(self.keys() =~= Seq::<Seq<char>>::empty());
        assert(self.map() =~= Map::<Seq<char>, T>::empty());
    }

    /// The ids, in order.
    pub fn ids(&self) -> (v: Vec<PluginId>)
        ensures
            id_texts(v@) == self.keys(),
    {
        let mut v: Vec<PluginId> = Vec::new();
        let mut i: usize = 0;
        while i < self.ids.len()
            invariant
                i <= self.ids@.len(),
                v@.len() == i,
                id_texts(v@) == self.keys().take(i as int),
            decreases self.ids@.len() - i,
        {
            let c = self.ids[i].clone();
            assert(c.text() == self.keys()[i as int]);
            let ghost before = v@;
            v.push(c);
            proof {
                assert forall|j: int| 0 <= j < i implies #[trigger] id_texts(v@)[j] == self.keys()[j] by {
                    assert(v@[j] == before[j]);
                    assert(id_texts(before)[j] == self.keys().take(i as int)[j]);
                }
            }
            i += 1;
            assert(id_texts(v@) =~= self.keys().take(i as int));
        }
        assert(self.keys().take(i as int) =~= self.keys());
        v
    }

    /// The values, in the order of the ids.
    pub fn all(&self) -> (v: Vec<&T>)
        requires
            self.wf(),
        ensures
            v@.len() == self.keys().len(),
            forall|i: int| 0 <= i < v@.len() ==> *#[trigger] v@[i] == self.values()[i],
    {
        let mut v: Vec<&T> = Vec::new();
        let mut i: usize = 0;
        while i < self.vals.len()
            invariant
                i <= self.vals@.len(),
                v@.len() == i,
                forall|j: int| 0 <= j < i ==> *#[trigger] v@[j] == self.values()[j],
            decreases self.vals@.len() - i,
        {
            v.push(&self.vals[i]);
            i += 1;
        }
        v
    }
}

//==============================================================================
// The registry
//==============================================================================

/// The word for a plugin type in built-in plugin ids.
pub open spec fn kind_word(t: PluginType) -> Seq<char> {
    match t {
        PluginType::Effect => "effect"@,
        PluginType::Tool => "tool"@,
    }
}

/// The id of the built-in plugin of type `t` registered as number `n`.
pub open spec fn builtin_id(t: PluginType, n: u64) -> Seq<char> {
    "builtin."@ + kind_word(t) + "."@ + decimal(n as nat)
}

/// A capability's name as `{:?}` prints it.
pub open spec fn capability_name(c: PluginCapability) -> Seq<char> {
    match c {
        PluginCapability::CanvasRead => "CanvasRead"@,
        PluginCapability::CanvasWrite => "CanvasWrite"@,
        PluginCapability::LayerAccess => "LayerAccess"@,
        PluginCapability::SelectionAccess => "SelectionAccess"@,
        PluginCapability::FileAccess => "FileAccess"@,
        PluginCapability::NetworkAccess => "NetworkAccess"@,
        PluginCapability::UserInterface => "UserInterface"@,
        PluginCapability::PersistentStorage => "PersistentStorage"@,
    }
}

fn capability_name_exec(c: PluginCapability) -> (s: &'static str)
    ensures
        s@ == capability_name(c),
{
    match c {
        PluginCapability::CanvasRead => "CanvasRead",
        PluginCapability::CanvasWrite => "CanvasWrite",
        PluginCapability::LayerAccess => "LayerAccess",
        PluginCapability::SelectionAccess => "SelectionAccess",
        PluginCapability::FileAccess => "FileAccess",
        PluginCapability::NetworkAccess => "NetworkAccess",
        PluginCapability::UserInterface => "UserInterface",
        PluginCapability::PersistentStorage => "PersistentStorage",
    }
}

/// The message refusing a plugin of the wrong type.
pub open spec fn wrong_type_message(expected: PluginType) -> Seq<char> {
    match expected {
        PluginType::Effect => "Expected effect plugin type"@,
        PluginType::Tool => "Expected tool plugin type"@,
    }
}

/// The grants after granting `cap` to a plugin that held `before`.
pub open spec fn granted_after(before: Option<Seq<PluginCapability>>, cap: PluginCapability) -> Seq<
    PluginCapability,
> {
    match before {
        Some(g) => if g.contains(cap) {
            g
        } else {
            g.push(cap)
        },
        None => seq![cap],
    }
}

/// The values of `entries` whose type is `t`, in order.
pub open spec fn of_type<E>(entries: Seq<(PluginType, E)>, t: PluginType) -> Seq<E>
    decreases entries.len(),
{
    if entries.len() == 0 {
        Seq::empty()
    } else {
        let rest = of_type(entries.drop_last(), t);
        if entries.last().0 == t {
            rest.push(entries.last().1)
        } else {
            rest
        }
    }
}

/// The loaded plugins (whatever the caller stores for each, tagged with
/// its type), their manifests, the capabilities granted to each, and the
/// number the next built-in plugin gets.
pub struct PluginRegistry<E> {
    plugins: IdTable<(PluginType, E)>,
    manifests: IdTable<PluginManifest>,
    granted: IdTable<Vec<PluginCapability>>,
    next_id: u64,
}

impl<E> PluginRegistry<E> {
    /// The loaded plugin ids, in the order they were added.
    pub closed spec fn loaded(&self) -> Seq<Seq<char>> {
        self.plugins.keys()
    }

    /// Each loaded plugin's type and stored value, in the order of `loaded`.
    pub closed spec fn entry_seq(&self) -> Seq<(PluginType, E)> {
        self.plugins.values()
    }

    /// The loaded plugins by id.
    pub closed spec fn entries(&self) -> Map<Seq<char>, (PluginType, E)> {
        self.plugins.map()
    }

    /// The manifests of plugins loaded from one, by id.
    pub closed spec fn manifests(&self) -> Map<Seq<char>, PluginManifest> {
        self.manifests.map()
    }

    /// The capabilities granted, by id.
    pub closed spec fn grants(&self) -> Map<Seq<char>, Seq<PluginCapability>> {
        self.granted.map().map_values(|v: Vec<PluginCapability>| v@)
    }

    /// The number of the next built-in plugin.
    pub closed spec fn next_builtin(&self) -> u64 {
        self.next_id
    }

    /// The tables are well formed.
    pub closed spec fn wf(&self) -> bool {
        &&& self.plugins.wf()
        &&& self.manifests.wf()
        &&& self.granted.wf()
    }

    /// Every plugin with a manifest holds only capabilities its manifest
    /// requests.
    pub open spec fn grants_requested(&self) -> bool {
        forall|id: Seq<char>|
            #![trigger self.grants()[id]]
            self.manifests().contains_key(id) && self.grants().contains_key(id) ==> forall|c: PluginCapability|
                #[trigger] self.grants()[id].contains(c) ==> self.manifests()[id].capabilities@.contains(c)
    }

    /// An empty registry; built-in plugins are numbered from 1.
    pub fn new() -> (r: Self)
        ensures
            r.wf(),
            r.loaded() == Seq::<Seq<char>>::empty(),
            r.entries() == Map::<Seq<char>, (PluginType, E)>::empty(),
            r.manifests() == Map::<Seq<char>, PluginManifest>::empty(),
            r.grants() == Map::<Seq<char>, Seq<PluginCapability>>::empty(),
            r.next_builtin() == 1,
            r.grants_requested(),
    {
        let r = PluginRegistry { plugins: IdTable::new(), manifests: IdTable::new(), granted: IdTable::new(), next_id: 1 };
        assert(r.grants() =~= Map::<Seq<char>, Seq<PluginCapability>>::empty());
        r
    }

    /// Whether a plugin of manifest `manifest` may be added as a plugin of
    /// type `expected`: refused when the manifest names another type, or
    /// when a plugin with its id is already loaded.
    pub fn check_loadable(&self, manifest: &PluginManifest, expected: PluginType) -> (r: PluginResult<()>)
        requires
            self.wf(),
        ensures
            manifest.plugin_type != expected ==> (r matches Err(PluginError::ManifestValidation(m)) && m@
                == wrong_type_message(expected)),
            manifest.plugin_type == expected && self.entries().contains_key(manifest.id.text()) ==> (r matches Err(
                PluginError::PluginAlreadyLoaded(id),
            ) && id.text() == manifest.id.text()),
            manifest.plugin_type == expected && !self.entries().contains_key(manifest.id.text()) ==> r is Ok,
    {
        if manifest.plugin_type != expected {
            let msg = match expected {
                PluginType::Effect => "Expected effect plugin type",
                PluginType::Tool => "Expected tool plugin type",
            };
            return Err(PluginError::manifest_validation(msg));
        }
        match self.plugins.get(manifest.id.as_str()) {
            Some(_) => Err(PluginError::PluginAlreadyLoaded(manifest.id.clone())),
            None => Ok(()),
        }
    }

    /// Add a plugin loaded from `manifest`, storing `entry` for it; it is
    /// granted every capability its manifest requests.
    pub fn add_loaded(&mut self, manifest: PluginManifest, entry: E) -> (id: PluginId)
        requires
            old(self).wf(),
        ensures
            final(self).wf(),
            id.text() == manifest.id.text(),
            final(self).entries() == old(self).entries().insert(id.text(), (manifest.plugin_type, entry)),
            final(self).manifests() == old(self).manifests().insert(id.text(), manifest),
            final(self).grants() == old(self).grants().insert(id.text(), manifest.capabilities@),
            final(self).next_builtin() == old(self).next_builtin(),
            old(self).grants_requested() ==> final(self).grants_requested(),
    {
        let id = manifest.id.clone();
        let mut caps: Vec<PluginCapability> = Vec::new();
        let mut i: usize = 0;
        while i < manifest.capabilities.len()
            invariant
                i <= manifest.capabilities@.len(),
                caps@ == manifest.capabilities@.take(i as int),
            decreases manifest.capabilities@.len() - i,
        {
            caps.push(manifest.capabilities[i]);
            i += 1;
            assert(caps@ =~= manifest.capabilities@.take(i as int));
        }
        assert(manifest.capabilities@.take(i as int) =~= manifest.capabilities@);
        let ghost g0 = self.granted.map();
        self.granted.upsert(id.clone(), caps);
        let ty = manifest.plugin_type;
        let ghost m = manifest;
        self.manifests.upsert(id.clone(), manifest);
        self.plugins.upsert(id.clone(), (ty, entry));
        proof {
            assert(self.grants() =~= old(self).grants().insert(id.text(), m.capabilities@));
        }
        id
    }

    /// Register a built-in plugin of type `kind`, storing `entry` for it,
    /// under the id `builtin.<kind>.<n>` with the next number `n`.
    pub fn register_builtin(&mut self, kind: PluginType, entry: E) -> (id: PluginId)
        requires
            old(self).wf(),
            old(self).next_builtin() < u64::MAX,
        ensures
            final(self).wf(),
            id.text() == builtin_id(kind, old(self).next_builtin()),
            final(self).entries() == old(self).entries().insert(id.text(), (kind, entry)),
            final(self).manifests() == old(self).manifests(),
            final(self).grants() == old(self).grants(),
            final(self).next_builtin() == old(self).next_builtin() + 1,
            old(self).grants_requested() ==> final(self).grants_requested(),
    {
        let mut text = String::from_str("builtin.");
        match kind {
            PluginType::Effect => text.append("effect"),
            PluginType::Tool => text.append("tool"),
        }
        text.append(".");
        text.append(u64_to_decimal(self.next_id).as_str());
        let id = PluginId::new(text);
        self.next_id = self.next_id + 1;
        self.plugins.upsert(id.clone(), (kind, entry));
        proof {
            assert(self.grants() == old(self).grants());
            assert(self.manifests() == old(self).manifests());
        }
        id
    }

    /// Unload the plugin `id`, with its manifest and grants; unloading an
    /// unknown id changes nothing and is not an error.
    pub fn unload(&mut self, id: &PluginId) -> (r: PluginResult<()>)
        requires
            old(self).wf(),
        ensures
            r is Ok,
            final(self).wf(),
            final(self).entries() == old(self).entries().remove(id.text()),
            final(self).manifests() == old(self).manifests().remove(id.text()),
            final(self).grants() == old(self).grants().remove(id.text()),
            final(self).next_builtin() == old(self).next_builtin(),
            old(self).grants_requested() ==> final(self).grants_requested(),
    {
        self.plugins.remove(id.as_str());
        self.manifests.remove(id.as_str());
        self.granted.remove(id.as_str());
        proof {
            assert(self.grants() =~= old(self).grants().remove(id.text()));
        }
        Ok(())
    }

    /// What is stored for the plugin `id`.
    pub fn get(&self, id: &PluginId) -> (r: Option<&E>)
        requires
            self.wf(),
        ensures
            self.entries().contains_key(id.text()) ==> (r matches Some(e) && *e == self.entries()[id.text()].1),
            !self.entries().contains_key(id.text()) ==> r is None,
    {
        match self.plugins.get(id.as_str()) {
            Some(p) => Some(&p.1),
            None => None,
        }
    }

    /// The stored value of the plugin `id`, to change in place; its type
    /// and everything else in the registry stay as they are.
    pub fn get_mut(&mut self, id: &PluginId) -> (r: Option<&mut E>)
        requires
            old(self).wf(),
        ensures
            !old(self).entries().contains_key(id.text()) ==> r is None && *final(self) == *old(self),
            old(self).entries().contains_key(id.text()) ==> r is Some,
            r matches Some(e) ==> {
                &&& *e == old(self).entries()[id.text()].1
                &&& final(self).wf()
                &&& final(self).loaded() == old(self).loaded()
                &&& final(self).entries() == old(self).entries().insert(
                    id.text(),
                    (old(self).entries()[id.text()].0, *final(e)),
                )
                &&& final(self).manifests() == old(self).manifests()
                &&& final(self).grants() == old(self).grants()
                &&& final(self).next_builtin() == old(self).next_builtin()
            },
    {
        match self.plugins.get_mut(id.as_str()) {
            Some(p) => Some(&mut p.1),
            None => None,
        }
    }

    /// The type of the plugin `id`.
    pub fn type_of(&self, id: &PluginId) -> (r: Option<PluginType>)
        requires
            self.wf(),
        ensures
            self.entries().contains_key(id.text()) ==> r == Some(self.entries()[id.text()].0),
            !self.entries().contains_key(id.text()) ==> r is None,
    {
        match self.plugins.get(id.as_str()) {
            Some(p) => Some(p.0),
            None => None,
        }
    }

    /// The loaded plugin ids, in the order they were added.
    pub fn plugin_ids(&self) -> (v: Vec<PluginId>)
        ensures
            id_texts(v@) == self.loaded(),
    {
        self.plugins.ids()
    }

    /// What is stored for every loaded plugin, in the order of `loaded`.
    pub fn plugins(&self) -> (v: Vec<&E>)
        requires
            self.wf(),
        ensures
            v@.len() == self.entry_seq().len(),
            forall|i: int| 0 <= i < v@.len() ==> *#[trigger] v@[i] == self.entry_seq()[i].1,
    {
        proof {
            self.plugins.lemma_lens();
        }
        let all = self.plugins.all();
        let mut v: Vec<&E> = Vec::new();
        let mut i: usize = 0;
        while i < all.len()
            invariant
                i <= all@.len(),
                all@.len() == self.entry_seq().len(),
                forall|j: int| 0 <= j < all@.len() ==> *#[trigger] all@[j] == self.entry_seq()[j],
                v@.len() == i,
                forall|j: int| 0 <= j < i ==> *#[trigger] v@[j] == self.entry_seq()[j].1,
            decreases all@.len() - i,
        {
            let p: &(PluginType, E) = all[i];
            v.push(&p.1);
            i += 1;
        }
        v
    }

    /// What is stored for every loaded plugin of type `t`, in order.
    pub fn plugins_by_type(&self, t: PluginType) -> (v: Vec<&E>)
        requires
            self.wf(),
        ensures
            v@.len() == of_type(self.entry_seq(), t).len(),
            forall|i: int| 0 <= i < v@.len() ==> *#[trigger] v@[i] == of_type(self.entry_seq(), t)[i],
    {
        proof {
            self.plugins.lemma_lens();
        }
        let all = self.plugins.all();
        let ghost es = self.entry_seq();
        let mut v: Vec<&E> = Vec::new();
        let mut i: usize = 0;
        while i < all.len()
            invariant
                i <= all@.len(),
                all@.len() == es.len(),
                forall|j: int| 0 <= j < all@.len() ==> *#[trigger] all@[j] == es[j],
                v@.len() == of_type(es.take(i as int), t).len(),
                forall|j: int| 0 <= j < v@.len() ==> *#[trigger] v@[j] == of_type(es.take(i as int), t)[j],
            decreases all@.len() - i,
        {
            proof {
                assert(es.take(i + 1).drop_last() =~= es.take(i as int));
            }
            let p: &(PluginType, E) = all[i];
            if p.0 == t {
                v.push(&p.1);
            }
            i += 1;
        }
        assert(es.take(i as int) =~= es);
        v
    }

    /// The manifest of the plugin `id`, if it was loaded from one.
    pub fn get_manifest(&self, id: &PluginId) -> (r: Option<&PluginManifest>)
        requires
            self.wf(),
        ensures
            self.manifests().contains_key(id.text()) ==> (r matches Some(m) && *m == self.manifests()[id.text()]),
            !self.manifests().contains_key(id.text()) ==> r is None,
    {
        self.manifests.get(id.as_str())
    }

    /// The capabilities granted to the plugin `id`.
    pub fn get_granted_capabilities(&self, id: &PluginId) -> (r: Option<&[PluginCapability]>)
        requires
            self.wf(),
        ensures
            self.grants().contains_key(id.text()) ==> (r matches Some(g) && g@ == self.grants()[id.text()]),
            !self.grants().contains_key(id.text()) ==> r is None,
    {
        match self.granted.get(id.as_str()) {
            Some(g) => Some(g.as_slice()),
            None => None,
        }
    }

    /// Whether a plugin with id `id` is loaded.
    pub fn is_loaded(&self, id: &PluginId) -> (b: bool)
        requires
            self.wf(),
        ensures
            b == self.entries().contains_key(id.text()),
    {
        self.plugins.get(id.as_str()).is_some()
    }

    /// Grant `cap` to the plugin `id`: refused when the plugin's manifest
    /// does not request it; a plugin without a manifest may be granted
    /// anything. Granting twice changes nothing.
    pub fn grant_capability(&mut self, id: &PluginId, cap: PluginCapability) -> (r: PluginResult<()>)
        requires
            old(self).wf(),
        ensures
            final(self).wf(),
            final(self).entries() == old(self).entries(),
            final(self).manifests() == old(self).manifests(),
            final(self).next_builtin() == old(self).next_builtin(),
            old(self).manifests().contains_key(id.text()) && !old(self).manifests()[id.text()].capabilities@.contains(
                cap,
            ) ==> (r matches Err(PluginError::ManifestValidation(m)) && m@ == "Cannot grant capability "@
                + capability_name(cap) + " - not requested in manifest"@) && final(self).grants() == old(
                self,
            ).grants(),
            !(old(self).manifests().contains_key(id.text()) && !old(self).manifests()[id.text()].capabilities@.contains(
                cap,
            )) ==> r is Ok && final(self).grants() == old(self).grants().insert(
                id.text(),
                granted_after(
                    if old(self).grants().contains_key(id.text()) {
                        Some(old(self).grants()[id.text()])
                    } else {
                        None
                    },
                    cap,
                ),
            ),
            old(self).grants_requested() ==> final(self).grants_requested(),
    {
        match self.manifests.get(id.as_str()) {
            Some(m) => {
                if !vec_contains(&m.capabilities, cap) {
                    let mut msg = String::from_str("Cannot grant capability ");
                    msg.append(capability_name_exec(cap));
                    msg.append(" - not requested in manifest");
                    return Err(PluginError::ManifestValidation(msg));
                }
            },
            None => {},
        }
        assert(self.manifests().contains_key(id.text()) ==> self.manifests()[id.text()].capabilities@.contains(cap));
        let ghost g0 = self.granted.map();
        let ghost k = id.text();
        let ghost after = granted_after(if g0.contains_key(k) { Some(g0[k]@) } else { None }, cap);
        match self.granted.get_mut(id.as_str()) {
            Some(caps) => {
                if !vec_contains(caps, cap) {
                    caps.push(cap);
                }
                assert(caps@ == after);
            },
            None => {
                let fresh = vec![cap];
                assert(fresh@ == after);
                self.granted.upsert(id.clone(), fresh);
            },
        }
        proof {
            let g1 = self.granted.map();
            assert(g1.dom() == g0.dom().insert(k));
            assert(g1[k]@ == after);
            assert forall|q: Seq<char>| q != k && g0.contains_key(q) implies g1[q] == g0[q] by {}
            assert(self.grants() =~= old(self).grants().insert(k, after));
            if old(self).grants_requested() {
                assert forall|q: Seq<char>|
                    self.manifests().contains_key(q) && self.grants().contains_key(q) implies forall|c: PluginCapability|
                        #[trigger] self.grants()[q].contains(c) ==> self.manifests()[q].capabilities@.contains(c) by {
                    if q == k {
                        assert forall|c: PluginCapability| #[trigger] self.grants()[q].contains(c) implies self.manifests()[q].capabilities@.contains(
                            c,
                        ) by {
                            assert(self.grants()[q] == after);
                            if c != cap {
                                if g0.contains_key(k) {
                                    let g = g0[k]@;
                                    assert(old(self).grants()[k] == g);
                                    if !g.contains(cap) {
                                        let j = choose|j: int| 0 <= j < g.push(cap).len() && g.push(cap)[j] == c;
                                        assert(g[j] == c);
                                    }
                                    assert(g.contains(c));
                                    assert(old(self).grants()[k].contains(c));
                                } else {
                                    assert(after == seq![cap]);
                                    assert(after[0] == cap);
                                }
                            }
                        }
                    } else {
                        assert(self.grants()[q] == old(self).grants()[q]);
                    }
                }
            }
        }
        Ok(())
    }

    /// Whether the plugin `id` has been granted `cap`.
    pub fn has_capability(&self, id: &PluginId, cap: PluginCapability) -> (b: bool)
        requires
            self.wf(),
        ensures
            b == (self.grants().contains_key(id.text()) && self.grants()[id.text()].contains(cap)),
    {
        match self.granted.get(id.as_str()) {
            Some(g) => vec_contains(g, cap),
            None => false,
        }
    }

    /// Unload every plugin; built-in numbering goes on.
    pub fn clear(&mut self)
        requires
            old(self).wf(),
        ensures
            final(self).wf(),
            final(self).loaded() == Seq::<Seq<char>>::empty(),
            final(self).entries() == Map::<Seq<char>, (PluginType, E)>::empty(),
            final(self).manifests() == Map::<Seq<char>, PluginManifest>::empty(),
            final(self).grants() == Map::<Seq<char>, Seq<PluginCapability>>::empty(),
            final(self).next_builtin() == old(self).next_builtin(),
            final(self).grants_requested(),
    {
        self.plugins.clear();
        self.manifests.clear();
        self.granted.clear();
        proof {
            assert(self.grants() =~= Map::<Seq<char>, Seq<PluginCapability>>::empty());
        }
    }

    /// The number of loaded plugins.
    pub fn len(&self) -> (n: usize)
        requires
            self.wf(),
        ensures
            n == self.loaded().len(),
            n == self.entries().len(),
    {
        self.plugins.len()
    }

    /// The number the next built-in plugin gets.
    pub fn next_builtin_number(&self) -> (n: u64)
        ensures
            n == self.next_builtin(),
    {
        self.next_id
    }

    /// Whether no plugin is loaded.
    pub fn is_empty(&self) -> (b: bool)
        requires
            self.wf(),
        ensures
            b == (self.loaded().len() == 0),
    {
        self.plugins.len() == 0
    }
}

impl<E> Default for PluginRegistry<E> {
    /// An empty registry.
    fn default() -> (r: Self)
        ensures
            r.wf(),
            r.loaded() == Seq::<Seq<char>>::empty(),
            r.entries() == Map::<Seq<char>, (PluginType, E)>::empty(),
            r.manifests() == Map::<Seq<char>, PluginManifest>::empty(),
            r.grants() == Map::<Seq<char>, Seq<PluginCapability>>::empty(),
            r.next_builtin() == 1,
    {
        PluginRegistry::new()
    }
}

} // verus!
