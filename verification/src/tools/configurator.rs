//! The plugin configurator's logic: the format a configuration file is
//! read as, the configuration it generates, and how layered
//! configurations merge.

use vstd::prelude::*;
use crate::tools::minter::{to_lowercase, unicode_lowercase};

verus! {

/// A configuration file format.
#[derive(Clone, Copy, Debug, PartialEq, Eq, Structural)]
pub enum ConfigFormat {
    Json,
    Yaml,
    Toml,
}

/// How several configuration files combine.
#[derive(Clone, Copy, Debug, PartialEq, Eq, Structural)]
pub enum MergeStrategy {
    /// A later object replaces everything before it.
    Override,
    /// Objects merge key by key, arrays concatenate, other values replace.
    DeepMerge,
}

/// The extension of a path, as `std::path::Path::extension` gives it.
pub uninterp spec fn path_extension(path: Seq<char>) -> Option<Seq<char>>;

/// `Path::extension` of `path`, as text.
#[verifier::external_body]
fn extension_of(path: &str) -> (r: Option<String>)
    ensures
        match r {
            Some(e) => path_extension(path@) == Some(e@),
            None => path_extension(path@) is None,
        },
{
    std::path::Path::new(path).extension().map(|e| e.to_string_lossy().into_owned())
}


/// The format an extension (already lower-cased) names: `json`, `yaml`
/// or `yml`, and TOML for anything else or no extension.
pub open spec fn format_for(ext: Option<Seq<char>>) -> ConfigFormat {
    match ext {
        Some(e) => if e == "json"@ {
            ConfigFormat::Json
        } else if e == "yaml"@ || e == "yml"@ {
            ConfigFormat::Yaml
        } else {
            ConfigFormat::Toml
        },
        None => ConfigFormat::Toml,
    }
}


impl ConfigFormat {
    /// The format for a lower-cased extension, if any.
    pub fn from_extension(ext: Option<&str>) -> (f: ConfigFormat)
        ensures
            f == format_for(
                match ext {
                    Some(e) => Some(e@),
                    None => None,
                },
            ),
    {
        match ext {
            Some(e) => {
                if crate::text::str_equal(e, "json") {
                    ConfigFormat::Json
                } else if crate::text::str_equal(e, "yaml") || crate::text::str_equal(e, "yml") {
                    ConfigFormat::Yaml
                } else {
                    ConfigFormat::Toml
                }
            },
            None => ConfigFormat::Toml,
        }
    }

    /// The format of a configuration file, by its extension in any case.
    pub fn from_path(path: &str) -> (f: ConfigFormat)
        ensures
            f == format_for(
                match path_extension(path@) {
                    Some(e) => Some(unicode_lowercase(e)),
                    None => None,
                },
            ),
    {
        match extension_of(path) {
            Some(e) => {
                let lower = to_lowercase(e.as_str());
                ConfigFormat::from_extension(Some(lower.as_str()))
            },
            None => ConfigFormat::from_extension(None),
        }
    }
}

//==============================================================================
// Configuration values
//==============================================================================

/// A configuration value: JSON's data model, numbers kept as their text.
#[derive(Debug, PartialEq)]
pub enum JsonValue {
    Null,
    Bool(bool),
    Number(String),
    Str(String),
    Array(Vec<JsonValue>),
    Object(Vec<(String, JsonValue)>),
}

/// The mathematical content of a configuration value.
pub enum Json {
    Null,
    Bool(bool),
    Number(Seq<char>),
    Str(Seq<char>),
    Array(Seq<Json>),
    Object(Seq<(Seq<char>, Json)>),
}

impl JsonValue {
    /// The content of the value.
    pub open spec fn model(self) -> Json
        decreases self,
    {
        match self {
            JsonValue::Null => Json::Null,
            JsonValue::Bool(b) => Json::Bool(b),
            JsonValue::Number(n) => Json::Number(n@),
            JsonValue::Str(s) => Json::Str(s@),
            JsonValue::Array(v) => Json::Array(
                Seq::new(
                    v@.len(),
                    |i: int|
                        if 0 <= i < v@.len() {
                            v@[i].model()
                        } else {
                            Json::Null
                        },
                ),
            ),
            JsonValue::Object(v) => Json::Object(
                Seq::new(
                    v@.len(),
                    |i: int|
                        if 0 <= i < v@.len() {
                            (v@[i].0@, v@[i].1.model())
                        } else {
                            (Seq::empty(), Json::Null)
                        },
                ),
            ),
        }
    }
}

/// The content of a list of object entries.
pub open spec fn entries_model(v: Seq<(String, JsonValue)>) -> Seq<(Seq<char>, Json)> {
    Seq::new(v.len(), |i: int| (v[i].0@, v[i].1.model()))
}

/// The content of a list of values.
pub open spec fn values_model(v: Seq<JsonValue>) -> Seq<Json> {
    Seq::new(v.len(), |i: int| v[i].model())
}

proof fn lemma_object_model(v: Vec<(String, JsonValue)>)
    ensures
        JsonValue::Object(v).model() == Json::Object(entries_model(v@)),
{
    let inner = JsonValue::Object(v).model()->Object_0;
    assert(inner =~= entries_model(v@));
}

proof fn lemma_array_model(v: Vec<JsonValue>)
    ensures
        JsonValue::Array(v).model() == Json::Array(values_model(v@)),
{
    let inner = JsonValue::Array(v).model()->Array_0;
    assert(inner =~= values_model(v@));
}

/// The first position of key `k` among `entries`, or their number.
pub open spec fn key_pos(entries: Seq<(Seq<char>, Json)>, k: Seq<char>) -> int
    decreases entries.len(),
{
    if entries.len() == 0 {
        0
    } else if entries[0].0 == k {
        0
    } else {
        1 + key_pos(entries.skip(1), k)
    }
}

/// `incoming` merged into `existing`: objects merge key by key, arrays
/// concatenate, anything else is replaced by `incoming`.
pub open spec fn merge_json(existing: Json, incoming: Json) -> Json
    decreases incoming, 1nat,
{
    match existing {
        Json::Object(eo) => match incoming {
            Json::Object(so) => Json::Object(merge_entries(eo, so)),
            _ => incoming,
        },
        Json::Array(ea) => match incoming {
            Json::Array(sa) => Json::Array(ea + sa),
            _ => incoming,
        },
        _ => incoming,
    }
}

/// The entries `src` merged, in order, into `target`: a key already
/// present has its value merged, a new key is appended.
pub open spec fn merge_entries(target: Seq<(Seq<char>, Json)>, src: Seq<(Seq<char>, Json)>) -> Seq<
    (Seq<char>, Json),
>
    decreases src, 0nat,
{
    if src.len() == 0 {
        target
    } else {
        let t1 = merge_entries(target, src.drop_last());
        let k = src.last().0;
        let v = src.last().1;
        let p = key_pos(t1, k);
        if p < t1.len() {
            t1.update(p, (k, merge_json(t1[p].1, v)))
        } else {
            t1.push((k, v))
        }
    }
}

proof fn lemma_key_pos(e: Seq<(Seq<char>, Json)>, k: Seq<char>)
    ensures
        0 <= key_pos(e, k) <= e.len(),
        forall|j: int| 0 <= j < key_pos(e, k) ==> e[j].0 != k,
        key_pos(e, k) < e.len() ==> e[key_pos(e, k)].0 == k,
    decreases e.len(),
{
    if e.len() > 0 && e[0].0 != k {
        lemma_key_pos(e.skip(1), k);
        assert forall|j: int| 0 <= j < key_pos(e, k) implies e[j].0 != k by {
            if j > 0 {
                assert(e[j] == e.skip(1)[j - 1]);
            }
        }
    }
}

fn find_key(entries: &Vec<(String, JsonValue)>, k: &String) -> (r: usize)
    ensures
        r as int == key_pos(entries_model(entries@), k@),
{
    proof {
        lemma_key_pos(entries_model(entries@), k@);
    }
    let mut i: usize = 0;
    while i < entries.len()
        invariant
            i <= entries@.len(),
            forall|j: int| 0 <= j < i ==> entries@[j].0@ != k@,
            i <= key_pos(entries_model(entries@), k@),
            0 <= key_pos(entries_model(entries@), k@) <= entries@.len(),
            forall|j: int|
                0 <= j < key_pos(entries_model(entries@), k@) ==> entries_model(entries@)[j].0 != k@,
            key_pos(entries_model(entries@), k@) < entries@.len() ==> entries_model(entries@)[key_pos(
                entries_model(entries@),
                k@,
            )].0 == k@,
        decreases entries@.len() - i,
    {
        if crate::text::str_equal(entries[i].0.as_str(), k.as_str()) {
            assert(entries_model(entries@)[i as int].0 == k@);
            return i;
        }
        assert(entries_model(entries@)[i as int].0 != k@);
        i += 1;
    }
    i
}

/// `incoming` merged into `existing`.
pub fn merge_value(existing: JsonValue, incoming: JsonValue) -> (r: JsonValue)
    ensures
        r.model() == merge_json(existing.model(), incoming.model()),
    decreases incoming, 1nat,
{
    let ghost e0 = existing;
    let ghost i0 = incoming;
    match existing {
        JsonValue::Object(mut eo) => match incoming {
            JsonValue::Object(so) => {
                proof {
                    lemma_object_model(eo);
                    lemma_object_model(so);
                }
                merge_entries_into(&mut eo, so);
                proof {
                    lemma_object_model(eo);
                }
                JsonValue::Object(eo)
            },
            other => other,
        },
        JsonValue::Array(mut ea) => match incoming {
            JsonValue::Array(mut sa) => {
                proof {
                    lemma_array_model(ea);
                    lemma_array_model(sa);
                }
                let ghost a0 = ea@;
                let ghost b0 = sa@;
                ea.append(&mut sa);
                proof {
                    lemma_array_model(ea);
                    assert(values_model(ea@) =~= values_model(a0) + values_model(b0));
                }
                JsonValue::Array(ea)
            },
            other => other,
        },
        _ => incoming,
    }
}

/// The entries of `src` merged, in order, into `target`.
#[verifier::loop_isolation(false)]
pub fn merge_entries_into(target: &mut Vec<(String, JsonValue)>, src: Vec<(String, JsonValue)>)
    ensures
        entries_model(final(target)@) == merge_entries(entries_model(old(target)@), entries_model(src@)),
    decreases src, 0nat,
{
    let ghost s0 = src;
    let ghost t0 = entries_model(target@);
    let ghost sm = entries_model(src@);
    let mut rest = src;
    let total = rest.len();
    assert(total as int == s0@.len());
    let mut i: usize = 0;
    assert(sm.take(0) =~= Seq::<(Seq<char>, Json)>::empty());
    assert(rest@ =~= s0@.skip(0));
    while rest.len() > 0
        invariant
            rest@ == s0@.skip(i as int),
            i <= s0@.len(),
            s0@.len() <= usize::MAX,
            sm == entries_model(s0@),
            entries_model(target@) == merge_entries(t0, sm.take(i as int)),
        decreases rest@.len(),
    {
        let (k, v) = rest.remove(0);
        proof {
            assert(s0@[i as int] == (k, v));
            assert(sm.take(i + 1).drop_last() =~= sm.take(i as int));
            assert(sm.take(i + 1).last() == (k@, v.model()));
            assert(decreases_to!(s0 => s0@));
            assert(decreases_to!(s0@ => s0@[i as int]));
            assert(decreases_to!(s0@[i as int] => s0@[i as int].1));
        }
        let ghost before = target@;
        let ghost t1 = entries_model(target@);
        let p = find_key(target, &k);
        proof {
            lemma_key_pos(t1, k@);
        }
        if p < target.len() {
            let (ek, ev) = target.remove(p);
            let nv = merge_value(ev, v);
            target.insert(p, (ek, nv));
            proof {
                assert(target@ =~= before.update(p as int, (ek, nv)));
                assert(t1[p as int].0 == k@);
                assert(entries_model(target@) =~= t1.update(
                    p as int,
                    (k@, merge_json(t1[p as int].1, v.model())),
                ));
            }
        } else {
            target.push((k, v));
            proof {
                assert(entries_model(target@) =~= merge_entries(t0, sm.take(i as int)).push((k@, v.model())));
            }
        }
        i += 1;
        assert(rest@ =~= s0@.skip(i as int));
    }
    assert(sm.take(i as int) =~= sm);
}

/// Deep-merge a configuration value into an object's entries; a value
/// that is not an object changes nothing.
pub fn deep_merge_json(target: &mut Vec<(String, JsonValue)>, source: JsonValue)
    ensures
        entries_model(final(target)@) == match source.model() {
            Json::Object(so) => merge_entries(entries_model(old(target)@), so),
            _ => entries_model(old(target)@),
        },
{
    match source {
        JsonValue::Object(so) => {
            proof {
                lemma_object_model(so);
            }
            merge_entries_into(target, so);
        },
        _ => {},
    }
}

/// The entries of the merged configuration after the layers `vs`, in
/// order, starting from the empty object.
pub open spec fn merge_layers(vs: Seq<Json>, strategy: MergeStrategy) -> Seq<(Seq<char>, Json)>
    decreases vs.len(),
{
    if vs.len() == 0 {
        Seq::empty()
    } else {
        let acc = merge_layers(vs.drop_last(), strategy);
        match vs.last() {
            Json::Object(o) => match strategy {
                MergeStrategy::Override => o,
                MergeStrategy::DeepMerge => merge_entries(acc, o),
            },
            _ => acc,
        }
    }
}

/// Merge configuration layers, first to last; at least one is needed.
pub fn merge_configs(layers: Vec<JsonValue>, strategy: MergeStrategy) -> (r: Result<JsonValue, String>)
    ensures
        layers@.len() == 0 ==> (r matches Err(m) && m@ == "At least one input file is required"@),
        layers@.len() > 0 ==> (r matches Ok(v) && v.model() == Json::Object(
            merge_layers(values_model(layers@), strategy),
        )),
{
    if layers.len() == 0 {
        return Err("At least one input file is required".to_owned());
    }
    let ghost l0 = layers@;
    let ghost vm = values_model(l0);
    let mut merged: Vec<(String, JsonValue)> = Vec::new();
    let mut rest = layers;
    let total = rest.len();
    assert(total as int == l0.len());
    let mut i: usize = 0;
    assert(entries_model(merged@) =~= merge_layers(vm.take(0), strategy));
    assert(rest@ =~= l0.skip(0));
    while rest.len() > 0
        invariant
            rest@ == l0.skip(i as int),
            i <= l0.len(),
            l0.len() <= usize::MAX,
            vm == values_model(l0),
            entries_model(merged@) == merge_layers(vm.take(i as int), strategy),
        decreases rest@.len(),
    {
        let v = rest.remove(0);
        proof {
            assert(l0[i as int] == v);
            assert(vm.take(i + 1).drop_last() =~= vm.take(i as int));
            assert(vm.take(i + 1).last() == v.model());
        }
        match strategy {
            MergeStrategy::Override => {
                match v {
                    JsonValue::Object(o) => {
                        proof {
                            lemma_object_model(o);
                        }
                        merged = o;
                    },
                    _ => {},
                }
            },
            MergeStrategy::DeepMerge => {
                deep_merge_json(&mut merged, v);
            },
        }
        i += 1;
        assert(rest@ =~= l0.skip(i as int));
    }
    assert(vm.take(i as int) =~= vm);
    proof {
        lemma_object_model(merged);
    }
    Ok(JsonValue::Object(merged))
}

/// The configuration `generate` writes for a plugin.
pub open spec fn generated_config(plugin_id: Seq<char>) -> Json {
    Json::Object(
        seq![
            ("plugin_id"@, Json::Str(plugin_id)),
            ("version"@, Json::Str("1.0.0"@)),
            ("enabled"@, Json::Bool(true)),
            ("log_level"@, Json::Str("info"@)),
            ("capabilities"@, Json::Array(seq![Json::Str("CanvasRead"@), Json::Str("CanvasWrite"@)])),
            ("settings"@, Json::Object(Seq::empty())),
        ],
    )
}

/// The default configuration of a plugin: enabled, version 1.0.0, log
/// level `info`, canvas read and write, no settings.
pub fn generate_config(plugin_id: &str) -> (v: JsonValue)
    ensures
        v.model() == generated_config(plugin_id@),
{
    let caps = vec![
        JsonValue::Str("CanvasRead".to_owned()),
        JsonValue::Str("CanvasWrite".to_owned()),
    ];
    let settings: Vec<(String, JsonValue)> = Vec::new();
    proof {
        lemma_array_model(caps);
        assert(values_model(caps@) =~= seq![Json::Str("CanvasRead"@), Json::Str("CanvasWrite"@)]);
        lemma_object_model(settings);
        assert(entries_model(settings@) =~= Seq::<(Seq<char>, Json)>::empty());
    }
    let entries = vec![
        ("plugin_id".to_owned(), JsonValue::Str(plugin_id.to_owned())),
        ("version".to_owned(), JsonValue::Str("1.0.0".to_owned())),
        ("enabled".to_owned(), JsonValue::Bool(true)),
        ("log_level".to_owned(), JsonValue::Str("info".to_owned())),
        ("capabilities".to_owned(), JsonValue::Array(caps)),
        ("settings".to_owned(), JsonValue::Object(settings)),
    ];
    proof {
        lemma_object_model(entries);
        assert(entries_model(entries@) =~= generated_config(plugin_id@)->Object_0);
    }
    JsonValue::Object(entries)
}

} // verus!
