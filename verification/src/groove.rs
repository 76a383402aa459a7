//! Groove service discovery for collaborative sessions.
//!
//! A host advertises its session with a Groove manifest so peers can find
//! it without a central broker. This module builds the canonical manifest,
//! renders it as deterministic JSON, validates a manifest against the
//! schema's hard constraints, and offers an in-process discovery registry.
//! The manifest's keyed tables are kept as vectors in increasing key
//! order, which is the order the JSON rendering follows.

use vstd::prelude::*;
use crate::text::{chars_of, debug_quote, debug_quoted};

verus! {

/// Groove protocol version this implementation speaks.
pub const GROOVE_VERSION: &'static str = "1";

/// A capability advertised in a manifest.
#[derive(Debug, PartialEq, Eq)]
pub struct GrooveCapability {
    /// Capability type (a schema wire name, here `custom`).
    pub cap_type: String,
    pub description: String,
    /// Wire protocol of the capability.
    pub protocol: String,
    pub endpoint: String,
    pub requires_auth: bool,
    pub panel_compatible: bool,
}

/// The content of a capability.
pub struct CapModel {
    pub cap_type: Seq<char>,
    pub description: Seq<char>,
    pub protocol: Seq<char>,
    pub endpoint: Seq<char>,
    pub requires_auth: bool,
    pub panel_compatible: bool,
}

impl GrooveCapability {
    pub open spec fn model(&self) -> CapModel {
        CapModel {
            cap_type: self.cap_type@,
            description: self.description@,
            protocol: self.protocol@,
            endpoint: self.endpoint@,
            requires_auth: self.requires_auth,
            panel_compatible: self.panel_compatible,
        }
    }
}

impl Clone for GrooveCapability {
    fn clone(&self) -> (c: GrooveCapability)
        ensures
            c.model() == self.model(),
    {
        GrooveCapability {
            cap_type: self.cap_type.clone(),
            description: self.description.clone(),
            protocol: self.protocol.clone(),
            endpoint: self.endpoint.clone(),
            requires_auth: self.requires_auth,
            panel_compatible: self.panel_compatible,
        }
    }
}

/// A Groove manifest.
#[derive(Debug, PartialEq, Eq)]
pub struct GrooveManifest {
    pub groove_version: String,
    pub service_id: String,
    pub service_version: String,
    /// Capability name and capability, in increasing name order.
    pub capabilities: Vec<(String, GrooveCapability)>,
    /// Capabilities this service would like from its siblings.
    pub consumes: Vec<String>,
    /// Endpoint name and path, in increasing name order.
    pub endpoints: Vec<(String, String)>,
    pub health: String,
    pub applicability: Vec<String>,
}

/// The content of a manifest.
pub struct ManifestModel {
    pub groove_version: Seq<char>,
    pub service_id: Seq<char>,
    pub service_version: Seq<char>,
    pub capabilities: Seq<(Seq<char>, CapModel)>,
    pub consumes: Seq<Seq<char>>,
    pub endpoints: Seq<(Seq<char>, Seq<char>)>,
    pub health: Seq<char>,
    pub applicability: Seq<Seq<char>>,
}

/// The contents of a vector of strings.
pub open spec fn strings_model(v: Seq<String>) -> Seq<Seq<char>> {
    Seq::new(v.len(), |i: int| v[i]@)
}

impl GrooveManifest {
    pub open spec fn model(&self) -> ManifestModel {
        ManifestModel {
            groove_version: self.groove_version@,
            service_id: self.service_id@,
            service_version: self.service_version@,
            capabilities: Seq::new(
                self.capabilities@.len(),
                |i: int| (self.capabilities@[i].0@, self.capabilities@[i].1.model()),
            ),
            consumes: strings_model(self.consumes@),
            endpoints: Seq::new(
                self.endpoints@.len(),
                |i: int| (self.endpoints@[i].0@, self.endpoints@[i].1@),
            ),
            health: self.health@,
            applicability: strings_model(self.applicability@),
        }
    }
}

fn clone_strings(v: &Vec<String>) -> (r: Vec<String>)
    ensures
        strings_model(r@) == strings_model(v@),
{
    let mut r: Vec<String> = Vec::new();
    let mut i: usize = 0;
    while i < v.len()
        invariant
            i <= v@.len(),
            r@.len() == i,
            forall|j: int| 0 <= j < i ==> r@[j]@ == v@[j]@,
        decreases v@.len() - i,
    {
        r.push(v[i].clone());
        i += 1;
    }
    assert(strings_model(r@) =~= strings_model(v@));
    r
}

impl Clone for GrooveManifest {
    fn clone(&self) -> (m: GrooveManifest)
        ensures
            m.model() == self.model(),
    {
        let mut caps: Vec<(String, GrooveCapability)> = Vec::new();
        let mut i: usize = 0;
        while i < self.capabilities.len()
            invariant
                i <= self.capabilities@.len(),
                caps@.len() == i,
                forall|j: int|
                    0 <= j < i ==> caps@[j].0@ == self.capabilities@[j].0@ && caps@[j].1.model()
                        == self.capabilities@[j].1.model(),
            decreases self.capabilities@.len() - i,
        {
            let e = &self.capabilities[i];
            caps.push((e.0.clone(), e.1.clone()));
            i += 1;
        }
        let mut eps: Vec<(String, String)> = Vec::new();
        let mut k: usize = 0;
        while k < self.endpoints.len()
            invariant
                k <= self.endpoints@.len(),
                eps@.len() == k,
                forall|j: int|
                    0 <= j < k ==> eps@[j].0@ == self.endpoints@[j].0@ && eps@[j].1@
                        == self.endpoints@[j].1@,
            decreases self.endpoints@.len() - k,
        {
            let e = &self.endpoints[k];
            eps.push((e.0.clone(), e.1.clone()));
            k += 1;
        }
        let m = GrooveManifest {
            groove_version: self.groove_version.clone(),
            service_id: self.service_id.clone(),
            service_version: self.service_version.clone(),
            capabilities: caps,
            consumes: clone_strings(&self.consumes),
            endpoints: eps,
            health: self.health.clone(),
            applicability: clone_strings(&self.applicability),
        };
        assert(m.model().capabilities =~= self.model().capabilities);
        assert(m.model().endpoints =~= self.model().endpoints);
        m
    }
}

/// Why a manifest failed structural validation.
/// Why a manifest breaks the protocol's hard constraints.
#[derive(Clone, Debug, PartialEq, Eq)]
pub enum ManifestError {
    /// The protocol version is not `GROOVE_VERSION`.
    WrongGrooveVersion(String),
    /// The service id is not lower-case kebab/snake text.
    BadServiceId(String),
    /// The manifest advertises no capability.
    NoCapabilities,
    /// The service version does not start with `X.Y.Z`.
    BadServiceVersion(String),
}

//==============================================================================
// Validation
//==============================================================================

pub open spec fn is_lower(c: char) -> bool {
    'a' <= c && c <= 'z'
}

pub open spec fn is_digit(c: char) -> bool {
    '0' <= c && c <= '9'
}

/// `^[a-z][a-z0-9_-]*$`.
pub open spec fn valid_service_id(s: Seq<char>) -> bool {
    &&& s.len() > 0
    &&& is_lower(s[0])
    &&& forall|i: int|
        1 <= i < s.len() ==> is_lower(#[trigger] s[i]) || is_digit(s[i]) || s[i] == '_' || s[i] == '-'
}

/// Number of leading characters of `s` before the first `-` or `+`.
pub open spec fn core_len(s: Seq<char>) -> nat
    decreases s.len(),
{
    if s.len() == 0 {
        0
    } else if s[0] == '-' || s[0] == '+' {
        0
    } else {
        1 + core_len(s.drop_first())
    }
}

/// Length of the run of ASCII digits of `s` starting at `from`.
pub open spec fn digit_run(s: Seq<char>, from: int) -> nat
    decreases s.len() - from,
{
    if from < 0 || from >= s.len() || !is_digit(s[from]) {
        0
    } else {
        1 + digit_run(s, from + 1)
    }
}

/// The part of a version before any pre-release or build suffix starts
/// with three dot-separated, non-empty runs of digits: `X.Y.Z`.
pub open spec fn semver_ish(s: Seq<char>) -> bool {
    let c = s.take(core_len(s) as int);
    let a = digit_run(c, 0) as int;
    let b = digit_run(c, a + 1) as int;
    let d = digit_run(c, a + b + 2) as int;
    &&& a > 0 && a < c.len() && c[a] == '.'
    &&& b > 0 && a + 1 + b < c.len() && c[a + 1 + b] == '.'
    &&& d > 0 && (a + b + 2 + d == c.len() || c[a + b + 2 + d] == '.')
}

/// A manifest with these fields passes validation.
pub open spec fn manifest_valid(m: ManifestModel) -> bool {
    &&& m.groove_version == "1"@
    &&& valid_service_id(m.service_id)
    &&& semver_ish(m.service_version)
    &&& m.capabilities.len() > 0
}

/// Whether `s` matches `^[a-z][a-z0-9_-]*$`.
pub fn is_valid_service_id(s: &str) -> (b: bool)
    ensures
        b == valid_service_id(s@),
{
    let v = chars_of(s);
    if v.len() == 0 {
        return false;
    }
    let c0 = v[0];
    if !('a' <= c0 && c0 <= 'z') {
        return false;
    }
    let mut i: usize = 1;
    while i < v.len()
        invariant
            1 <= i <= v@.len(),
            v@ == s@,
            forall|j: int|
                1 <= j < i ==> is_lower(#[trigger] v@[j]) || is_digit(v@[j]) || v@[j] == '_' || v@[j]
                    == '-',
        decreases v@.len() - i,
    {
        let c = v[i];
        if !(('a' <= c && c <= 'z') || ('0' <= c && c <= '9') || c == '_' || c == '-') {
            return false;
        }
        i += 1;
    }
    true
}

fn digit_run_exec(v: &Vec<char>, len: usize, from: usize) -> (n: usize)
    requires
        len <= v@.len(),
        from <= len,
    ensures
        n as nat == digit_run(v@.take(len as int), from as int),
        from + n <= len,
{
    let ghost c = v@.take(len as int);
    let mut i = from;
    while i < len && '0' <= v[i] && v[i] <= '9'
        invariant
            from <= i <= len,
            len <= v@.len(),
            c == v@.take(len as int),
            digit_run(c, from as int) == (i - from) + digit_run(c, i as int),
        decreases len - i,
    {
        assert(c[i as int] == v@[i as int]);
        i += 1;
    }
    if i < len {
        assert(c[i as int] == v@[i as int]);
    }
    i - from
}

/// Whether `s` starts (before any `-` or `+`) with `X.Y.Z`, each a
/// non-empty run of digits.
pub fn is_semver_ish(s: &str) -> (b: bool)
    ensures
        b == semver_ish(s@),
{
    let v = chars_of(s);
    let mut len: usize = 0;
    assert(s@.skip(0) =~= s@);
    while len < v.len() && v[len] != '-' && v[len] != '+'
        invariant
            len <= v@.len(),
            v@ == s@,
            core_len(s@) == len + core_len(s@.skip(len as int)),
        decreases v@.len() - len,
    {
        assert(s@.skip(len as int).drop_first() =~= s@.skip(len + 1));
        len += 1;
    }
    assert(core_len(s@.skip(len as int)) == 0);
    let ghost c = s@.take(len as int);
    let a = digit_run_exec(&v, len, 0);
    if !(a > 0 && a < len && v[a] == '.') {
        assert(a < len ==> c[a as int] == v@[a as int]);
        return false;
    }
    let b = digit_run_exec(&v, len, a + 1);
    if !(b > 0 && a + 1 + b < len && v[a + 1 + b] == '.') {
        assert(a + 1 + b < len ==> c[a + 1 + b as int] == v@[a + 1 + b as int]);
        return false;
    }
    let d = digit_run_exec(&v, len, a + b + 2);
    let ok = d > 0 && (a + b + 2 + d == len || v[a + b + 2 + d] == '.');
    assert(a + b + 2 + d < len ==> c[a + b + 2 + d as int] == v@[a + b + 2 + d as int]);
    assert(c[a as int] == v@[a as int]);
    assert(c[a + 1 + b as int] == v@[a + 1 + b as int]);
    ok
}

impl GrooveManifest {
    /// Validate against the schema's hard constraints, in order: protocol
    /// version, service id, service version, at least one capability.
    pub fn validate(&self) -> (r: Result<(), ManifestError>)
        ensures
            manifest_valid(self.model()) <==> r is Ok,
            self.groove_version@ != "1"@ ==> (r matches Err(ManifestError::WrongGrooveVersion(v))
                && v@ == self.groove_version@),
            self.groove_version@ == "1"@ && !valid_service_id(self.service_id@) ==> (r matches Err(
                ManifestError::BadServiceId(v),
            ) && v@ == self.service_id@),
            self.groove_version@ == "1"@ && valid_service_id(self.service_id@) && !semver_ish(
                self.service_version@,
            ) ==> (r matches Err(ManifestError::BadServiceVersion(v)) && v@ == self.service_version@),
            self.groove_version@ == "1"@ && valid_service_id(self.service_id@) && semver_ish(
                self.service_version@,
            ) && self.capabilities@.len() == 0 ==> r == Err::<(), ManifestError>(
                ManifestError::NoCapabilities,
            ),
    {
        proof {
            reveal_strlit("1");
        }
        let gv = self.groove_version.as_str();
        let is_one = gv.unicode_len() == 1 && gv.get_char(0) == '1';
        assert(is_one <==> self.groove_version@ == "1"@) by {
            if self.groove_version@.len() == 1 && self.groove_version@[0] == '1' {
                assert(self.groove_version@ =~= "1"@);
            }
        }
        if !is_one {
            return Err(ManifestError::WrongGrooveVersion(self.groove_version.clone()));
        }
        if !is_valid_service_id(self.service_id.as_str()) {
            return Err(ManifestError::BadServiceId(self.service_id.clone()));
        }
        if !is_semver_ish(self.service_version.as_str()) {
            return Err(ManifestError::BadServiceVersion(self.service_version.clone()));
        }
        if self.capabilities.len() == 0 {
            return Err(ManifestError::NoCapabilities);
        }
        Ok(())
    }
}

//==============================================================================
// JSON rendering
//==============================================================================

/// A character as it appears inside a JSON string literal: `"`, `\` and
/// newline are escaped, every other character stands for itself.
pub open spec fn escape_char(c: char) -> Seq<char> {
    if c == '"' {
        seq!['\\', '"']
    } else if c == '\\' {
        seq!['\\', '\\']
    } else if c == '\n' {
        seq!['\\', 'n']
    } else {
        seq![c]
    }
}

pub open spec fn escaped(s: Seq<char>) -> Seq<char>
    decreases s.len(),
{
    if s.len() == 0 {
        Seq::empty()
    } else {
        escaped(s.drop_last()) + escape_char(s.last())
    }
}

/// A JSON string literal holding `s`.
pub open spec fn jstr(s: Seq<char>) -> Seq<char> {
    seq!['"'] + escaped(s) + seq!['"']
}

/// The string literals of the first `n` items, separated by `, `.
pub open spec fn jlist(items: Seq<Seq<char>>, n: nat) -> Seq<char>
    decreases n,
{
    if n == 0 {
        Seq::empty()
    } else if n == 1 {
        jstr(items[0])
    } else {
        jlist(items, (n - 1) as nat) + ", "@ + jstr(items[n - 1])
    }
}

/// A JSON array of string literals.
pub open spec fn jarr(items: Seq<Seq<char>>) -> Seq<char> {
    "["@ + jlist(items, items.len()) + "]"@
}

pub open spec fn bool_json(b: bool) -> Seq<char> {
    if b {
        "true"@
    } else {
        "false"@
    }
}

/// One capability entry of the rendering; `last` drops the trailing comma.
pub open spec fn cap_json(name: Seq<char>, c: CapModel, last: bool) -> Seq<char> {
    "    "@ + jstr(name) + ": {\n"@ + "      \"type\": "@ + jstr(c.cap_type) + ",\n"@
        + "      \"description\": "@ + jstr(c.description) + ",\n"@ + "      \"protocol\": "@
        + jstr(c.protocol) + ",\n"@ + "      \"endpoint\": "@ + jstr(c.endpoint) + ",\n"@
        + "      \"requires_auth\": "@ + bool_json(c.requires_auth) + ",\n"@
        + "      \"panel_compatible\": "@ + bool_json(c.panel_compatible) + "\n"@ + if last {
        "    }\n"@
    } else {
        "    },\n"@
    }
}

/// `s` holds `t` as a contiguous piece.
pub open spec fn holds_text(s: Seq<char>, t: Seq<char>) -> bool {
    exists|i: int| 0 <= i && i + t.len() <= s.len() && #[trigger] s.subrange(i, i + t.len()) == t
}

/// Each field of a capability is rendered under its own key: the entry
/// of capability `c` named `name` opens with the quoted name and holds the
/// line of each key followed by that field's own value: the quoted type,
/// description, protocol and endpoint, and the JSON booleans of
/// `requires_auth` and `panel_compatible`.
#[verifier::rlimit(100)]
#[verifier::spinoff_prover]
pub proof fn law_cap_fields_under_their_keys(name: Seq<char>, c: CapModel, last: bool)
    ensures
        cap_json(name, c, last).take(("    "@ + jstr(name)).len() as int) == "    "@ + jstr(name),
        holds_text(cap_json(name, c, last), "      \"type\": "@ + jstr(c.cap_type) + ",\n"@),
        holds_text(cap_json(name, c, last), "      \"description\": "@ + jstr(c.description) + ",\n"@),
        holds_text(cap_json(name, c, last), "      \"protocol\": "@ + jstr(c.protocol) + ",\n"@),
        holds_text(cap_json(name, c, last), "      \"endpoint\": "@ + jstr(c.endpoint) + ",\n"@),
        holds_text(
            cap_json(name, c, last),
            "      \"requires_auth\": "@ + bool_json(c.requires_auth) + ",\n"@,
        ),
        holds_text(
            cap_json(name, c, last),
            "      \"panel_compatible\": "@ + bool_json(c.panel_compatible) + "\n"@,
        ),
{
    let j = cap_json(name, c, last);
    let n0 = "    "@ + jstr(name);
    let h = n0 + ": {\n"@;
    let t = "      \"type\": "@ + jstr(c.cap_type) + ",\n"@;
    let d = "      \"description\": "@ + jstr(c.description) + ",\n"@;
    let pr = "      \"protocol\": "@ + jstr(c.protocol) + ",\n"@;
    let en = "      \"endpoint\": "@ + jstr(c.endpoint) + ",\n"@;
    let a = "      \"requires_auth\": "@ + bool_json(c.requires_auth) + ",\n"@;
    let q = "      \"panel_compatible\": "@ + bool_json(c.panel_compatible) + "\n"@;
    let e = if last {
        "    }\n"@
    } else {
        "    },\n"@
    };
    let p1 = h;
    let p2 = p1 + t;
    let p3 = p2 + d;
    let p4 = p3 + pr;
    let p5 = p4 + en;
    let p6 = p5 + a;
    let p7 = p6 + q;
    assert(j =~= p7 + e);
    assert(j.take(n0.len() as int) =~= n0);
    assert(j.take(p2.len() as int) =~= p2);
    lemma_holds_at(j, p1, t);
    assert(j.take(p3.len() as int) =~= p3);
    lemma_holds_at(j, p2, d);
    assert(j.take(p4.len() as int) =~= p4);
    lemma_holds_at(j, p3, pr);
    assert(j.take(p5.len() as int) =~= p5);
    lemma_holds_at(j, p4, en);
    assert(j.take(p6.len() as int) =~= p6);
    lemma_holds_at(j, p5, a);
    assert(j.take(p7.len() as int) =~= p7);
    lemma_holds_at(j, p6, q);
}

/// A piece that follows a prefix of `j` within `j` is held by `j`.
proof fn lemma_holds_at(j: Seq<char>, p: Seq<char>, t: Seq<char>)
    requires
        j.len() >= p.len() + t.len(),
        j.take(p.len() + t.len() as int) == p + t,
    ensures
        holds_text(j, t),
{
    let pl = p.len() as int;
    assert(j.subrange(pl, pl + t.len()) =~= (p + t).subrange(pl, pl + t.len()));
    assert((p + t).subrange(pl, pl + t.len()) =~= t);
}

/// The first `n` entries hold the entry of every capability before `n`.
proof fn lemma_caps_json_holds(cs: Seq<(Seq<char>, CapModel)>, n: nat, k: int)
    requires
        0 <= k < n <= cs.len(),
    ensures
        holds_text(caps_json(cs, n), cap_json(cs[k].0, cs[k].1, k + 1 == cs.len())),
    decreases n,
{
    let t = cap_json(cs[k].0, cs[k].1, k + 1 == cs.len());
    let prev = caps_json(cs, (n - 1) as nat);
    let last = cap_json(cs[n - 1].0, cs[n - 1].1, n == cs.len());
    assert(caps_json(cs, n) == prev + last);
    if k == n - 1 {
        assert((prev + last).subrange(prev.len() as int, prev.len() as int + t.len() as int) =~= t);
    } else {
        lemma_caps_json_holds(cs, (n - 1) as nat, k);
        let i = choose|i: int| 0 <= i && i + t.len() <= prev.len() && #[trigger] prev.subrange(i, i + t.len()) == t;
        assert((prev + last).subrange(i, i + t.len()) =~= prev.subrange(i, i + t.len()));
    }
}

/// The first `n` capability entries.
pub open spec fn caps_json(cs: Seq<(Seq<char>, CapModel)>, n: nat) -> Seq<char>
    decreases n,
{
    if n == 0 {
        Seq::empty()
    } else {
        caps_json(cs, (n - 1) as nat) + cap_json(cs[n - 1].0, cs[n - 1].1, n == cs.len())
    }
}

/// The rendered manifest holds the entry of every capability, each with
/// its own name and flags.
pub proof fn law_manifest_json_holds_each_capability(m: ManifestModel, k: int)
    requires
        0 <= k < m.capabilities.len(),
    ensures
        holds_text(
            manifest_json(m),
            cap_json(m.capabilities[k].0, m.capabilities[k].1, k + 1 == m.capabilities.len()),
        ),
{
    let cs = m.capabilities;
    let t = cap_json(cs[k].0, cs[k].1, k + 1 == cs.len());
    let body = caps_json(cs, cs.len());
    lemma_caps_json_holds(cs, cs.len(), k);
    let i = choose|i: int| 0 <= i && i + t.len() <= body.len() && #[trigger] body.subrange(i, i + t.len()) == t;
    let pre = "{\n"@ + "  \"groove_version\": "@ + jstr(m.groove_version) + ",\n"@ + "  \"service_id\": "@
        + jstr(m.service_id) + ",\n"@ + "  \"service_version\": "@ + jstr(m.service_version) + ",\n"@
        + "  \"capabilities\": {\n"@;
    let j = manifest_json(m);
    let post = j.subrange(pre.len() as int + body.len() as int, j.len() as int);
    assert(j =~= pre + body + post);
    assert(j.subrange(pre.len() as int + i, pre.len() as int + i + t.len() as int) =~= body.subrange(i, i + t.len()));
}

/// One endpoint entry; `last` drops the trailing comma.
pub open spec fn endpoint_json(k: Seq<char>, v: Seq<char>, last: bool) -> Seq<char> {
    "    "@ + jstr(k) + ": "@ + jstr(v) + if last {
        "\n"@
    } else {
        ",\n"@
    }
}

/// The first `n` endpoint entries.
pub open spec fn endpoints_json(es: Seq<(Seq<char>, Seq<char>)>, n: nat) -> Seq<char>
    decreases n,
{
    if n == 0 {
        Seq::empty()
    } else {
        endpoints_json(es, (n - 1) as nat) + endpoint_json(es[n - 1].0, es[n - 1].1, n == es.len())
    }
}

/// The canonical JSON rendering of a manifest.
pub open spec fn manifest_json(m: ManifestModel) -> Seq<char> {
    "{\n"@ + "  \"groove_version\": "@ + jstr(m.groove_version) + ",\n"@ + "  \"service_id\": "@
        + jstr(m.service_id) + ",\n"@ + "  \"service_version\": "@ + jstr(m.service_version) + ",\n"@
        + "  \"capabilities\": {\n"@ + caps_json(m.capabilities, m.capabilities.len()) + "  },\n"@
        + "  \"consumes\": "@ + jarr(m.consumes) + ",\n"@ + "  \"endpoints\": {\n"@ + endpoints_json(
        m.endpoints,
        m.endpoints.len(),
    ) + "  },\n"@ + "  \"health\": "@ + jstr(m.health) + ",\n"@ + "  \"applicability\": "@ + jarr(
        m.applicability,
    ) + "\n"@ + "}\n"@
}

/// Append the JSON string literal of `s`.
fn push_jstr(out: &mut String, s: &str)
    ensures
        final(out)@ == old(out)@ + jstr(s@),
{
    let v = chars_of(s);
    let ghost start = out@;
    out.push('"');
    let mut i: usize = 0;
    while i < v.len()
        invariant
            i <= v@.len(),
            v@ == s@,
            out@ == start + seq!['"'] + escaped(v@.take(i as int)),
        decreases v@.len() - i,
    {
        let c = v[i];
        proof {
            assert(v@.take(i + 1).drop_last() =~= v@.take(i as int));
        }
        if c == '"' {
            out.append("\\\"");
        } else if c == '\\' {
            out.append("\\\\");
        } else if c == '\n' {
            out.append("\\n");
        } else {
            out.push(c);
        }
        proof {
            reveal_strlit("\\\"");
            reveal_strlit("\\\\");
            reveal_strlit("\\n");
            assert(out@ =~= start + seq!['"'] + escaped(v@.take(i + 1)));
        }
        i += 1;
    }
    out.push('"');
    assert(v@.take(v@.len() as int) =~= v@);
    assert(out@ =~= start + jstr(s@));
}

/// Append the JSON array of the string literals of `items`.
fn push_jarr(out: &mut String, items: &Vec<String>)
    ensures
        final(out)@ == old(out)@ + jarr(strings_model(items@)),
{
    let ghost start = out@;
    let ghost m = strings_model(items@);
    out.append("[");
    let mut i: usize = 0;
    while i < items.len()
        invariant
            i <= items@.len(),
            m == strings_model(items@),
            out@ == start + "["@ + jlist(m, i as nat),
        decreases items@.len() - i,
    {
        if i > 0 {
            out.append(", ");
        }
        push_jstr(out, items[i].as_str());
        i += 1;
    }
    out.append("]");
}

fn push_bool(out: &mut String, b: bool)
    ensures
        final(out)@ == old(out)@ + bool_json(b),
{
    if b {
        out.append("true");
    } else {
        out.append("false");
    }
}

#[verifier::rlimit(40)]
fn push_cap(out: &mut String, name: &str, c: &GrooveCapability, last: bool)
    ensures
        final(out)@ == old(out)@ + cap_json(name@, c.model(), last),
{
    let ghost s0 = out@;
    out.append("    ");
    push_jstr(out, name);
    out.append(": {\n");
    out.append("      \"type\": ");
    push_jstr(out, c.cap_type.as_str());
    out.append(",\n");
    out.append("      \"description\": ");
    push_jstr(out, c.description.as_str());
    out.append(",\n");
    out.append("      \"protocol\": ");
    push_jstr(out, c.protocol.as_str());
    out.append(",\n");
    out.append("      \"endpoint\": ");
    push_jstr(out, c.endpoint.as_str());
    out.append(",\n");
    out.append("      \"requires_auth\": ");
    push_bool(out, c.requires_auth);
    out.append(",\n");
    out.append("      \"panel_compatible\": ");
    push_bool(out, c.panel_compatible);
    out.append("\n");
    if last {
        out.append("    }\n");
    } else {
        out.append("    },\n");
    }
    assert(out@ =~= s0 + cap_json(name@, c.model(), last));
}

impl GrooveManifest {
    /// Render as canonical JSON; deterministic, entries in stored order.
    pub fn to_json(&self) -> (s: String)
        ensures
            s@ == manifest_json(self.model()),
    {
        let ghost m = self.model();
        let mut s = String::new();
        s.append("{\n");
        s.append("  \"groove_version\": ");
        push_jstr(&mut s, self.groove_version.as_str());
        s.append(",\n");
        s.append("  \"service_id\": ");
        push_jstr(&mut s, self.service_id.as_str());
        s.append(",\n");
        s.append("  \"service_version\": ");
        push_jstr(&mut s, self.service_version.as_str());
        s.append(",\n");
        s.append("  \"capabilities\": {\n");
        let ghost before_caps = s@;
        let n = self.capabilities.len();
        let mut i: usize = 0;
        while i < n
            invariant
                i <= n,
                n == self.capabilities@.len(),
                m == self.model(),
                s@ == before_caps + caps_json(m.capabilities, i as nat),
            decreases n - i,
        {
            let e = &self.capabilities[i];
            let ghost s0 = s@;
            push_cap(&mut s, e.0.as_str(), &e.1, i + 1 == n);
            proof {
                assert(m.capabilities[i as int] == (e.0@, e.1.model()));
            }
            i += 1;
        }
        s.append("  },\n");
        s.append("  \"consumes\": ");
        push_jarr(&mut s, &self.consumes);
        s.append(",\n");
        s.append("  \"endpoints\": {\n");
        let ghost before_eps = s@;
        let ne = self.endpoints.len();
        let mut k: usize = 0;
        while k < ne
            invariant
                k <= ne,
                ne == self.endpoints@.len(),
                m == self.model(),
                s@ == before_eps + endpoints_json(m.endpoints, k as nat),
            decreases ne - k,
        {
            let e = &self.endpoints[k];
            let ghost s0 = s@;
            s.append("    ");
            push_jstr(&mut s, e.0.as_str());
            s.append(": ");
            push_jstr(&mut s, e.1.as_str());
            if k + 1 == ne {
                s.append("\n");
            } else {
                s.append(",\n");
            }
            proof {
                assert(m.endpoints[k as int] == (e.0@, e.1@));
                assert(s@ =~= s0 + endpoint_json(e.0@, e.1@, k + 1 == ne));
            }
            k += 1;
        }
        s.append("  },\n");
        s.append("  \"health\": ");
        push_jstr(&mut s, self.health.as_str());
        s.append(",\n");
        s.append("  \"applicability\": ");
        push_jarr(&mut s, &self.applicability);
        s.append("\n");
        s.append("}\n");
        s
    }
}

//==============================================================================
// The canonical manifest and discovery
//==============================================================================

/// paint-type's canonical Groove manifest for a collaborative session host.
pub fn paint_type_manifest() -> (m: GrooveManifest)
    ensures
        m.model().groove_version == "1"@,
        m.model().service_id == "paint-type"@,
        m.model().service_version == "0.5.0"@,
        m.model().capabilities == seq![
            (
                "collab-canvas"@,
                CapModel {
                    cap_type: "custom"@,
                    description: "Conflict-free collaborative tile canvas (CRDT merge) over a Burble WebRTC data channel"@,
                    protocol: "webrtc"@,
                    endpoint: "/collab/canvas"@,
                    requires_auth: true,
                    panel_compatible: true,
                },
            ),
            (
                "edit-stream"@,
                CapModel {
                    cap_type: "custom"@,
                    description: "Realtime tile-edit op stream; CRDT-merged and permission-gated per peer"@,
                    protocol: "webrtc"@,
                    endpoint: "/collab/edits"@,
                    requires_auth: true,
                    panel_compatible: false,
                },
            ),
        ],
        m.model().consumes == seq!["voice"@, "text"@, "presence"@, "integrity"@],
        m.model().endpoints == seq![
            ("groove"@, "/.well-known/groove"@),
            ("health"@, "/health"@),
            ("schema"@, "/schema/groove-manifest.schema.json"@),
        ],
        m.model().health == "/health"@,
        m.model().applicability == seq!["individual"@, "team"@],
{
    let mut capabilities: Vec<(String, GrooveCapability)> = Vec::new();
    capabilities.push(
        (
            "collab-canvas".to_owned(),
            GrooveCapability {
                cap_type: "custom".to_owned(),
                description: "Conflict-free collaborative tile canvas (CRDT merge) over a Burble WebRTC data channel".to_owned(),
                protocol: "webrtc".to_owned(),
                endpoint: "/collab/canvas".to_owned(),
                requires_auth: true,
                panel_compatible: true,
            },
        ),
    );
    capabilities.push(
        (
            "edit-stream".to_owned(),
            GrooveCapability {
                cap_type: "custom".to_owned(),
                description: "Realtime tile-edit op stream; CRDT-merged and permission-gated per peer".to_owned(),
                protocol: "webrtc".to_owned(),
                endpoint: "/collab/edits".to_owned(),
                requires_auth: true,
                panel_compatible: false,
            },
        ),
    );
    let mut endpoints: Vec<(String, String)> = Vec::new();
    endpoints.push(("groove".to_owned(), "/.well-known/groove".to_owned()));
    endpoints.push(("health".to_owned(), "/health".to_owned()));
    endpoints.push(("schema".to_owned(), "/schema/groove-manifest.schema.json".to_owned()));
    let mut consumes: Vec<String> = Vec::new();
    consumes.push("voice".to_owned());
    consumes.push("text".to_owned());
    consumes.push("presence".to_owned());
    consumes.push("integrity".to_owned());
    let mut applicability: Vec<String> = Vec::new();
    applicability.push("individual".to_owned());
    applicability.push("team".to_owned());
    let m = GrooveManifest {
        groove_version: GROOVE_VERSION.to_owned(),
        service_id: "paint-type".to_owned(),
        service_version: "0.5.0".to_owned(),
        capabilities,
        consumes,
        endpoints,
        health: "/health".to_owned(),
        applicability,
    };
    assert(m.model().capabilities =~= seq![
        (
            "collab-canvas"@,
            CapModel {
                cap_type: "custom"@,
                description: "Conflict-free collaborative tile canvas (CRDT merge) over a Burble WebRTC data channel"@,
                protocol: "webrtc"@,
                endpoint: "/collab/canvas"@,
                requires_auth: true,
                panel_compatible: true,
            },
        ),
        (
            "edit-stream"@,
            CapModel {
                cap_type: "custom"@,
                description: "Realtime tile-edit op stream; CRDT-merged and permission-gated per peer"@,
                protocol: "webrtc"@,
                endpoint: "/collab/edits"@,
                requires_auth: true,
                panel_compatible: false,
            },
        ),
    ]);
    assert(m.model().consumes =~= seq!["voice"@, "text"@, "presence"@, "integrity"@]);
    assert(m.model().endpoints =~= seq![
        ("groove"@, "/.well-known/groove"@),
        ("health"@, "/health"@),
        ("schema"@, "/schema/groove-manifest.schema.json"@),
    ]);
    assert(m.model().applicability =~= seq!["individual"@, "team"@]);
    m
}

/// A discovered peer offering a collaborative session.
#[derive(Debug, PartialEq, Eq)]
pub struct DiscoveredPeer {
    pub service_id: String,
    /// Room code handed to the transport.
    pub room: String,
    pub manifest: GrooveManifest,
}

/// The content of a discovered peer.
pub struct PeerModel {
    pub service_id: Seq<char>,
    pub room: Seq<char>,
    pub manifest: ManifestModel,
}

impl DiscoveredPeer {
    pub open spec fn model(&self) -> PeerModel {
        PeerModel { service_id: self.service_id@, room: self.room@, manifest: self.manifest.model() }
    }
}

impl Clone for DiscoveredPeer {
    fn clone(&self) -> (p: DiscoveredPeer)
        ensures
            p.model() == self.model(),
    {
        DiscoveredPeer {
            service_id: self.service_id.clone(),
            room: self.room.clone(),
            manifest: self.manifest.clone(),
        }
    }
}

/// Service discovery: announce a session, find the announced ones.
pub trait Discovery {
    /// Announce that `room` hosts a collaborative session with `manifest`.
    fn announce(&mut self, room: &str, manifest: GrooveManifest);

    /// The peers currently announcing sessions.
    fn discover(&self) -> Vec<DiscoveredPeer>;
}

/// An in-process discovery registry.
pub struct SimDiscovery {
    peers: Vec<DiscoveredPeer>,
}

/// The contents of a sequence of discovered peers.
pub open spec fn peers_model(ps: Seq<DiscoveredPeer>) -> Seq<PeerModel> {
    Seq::new(ps.len(), |i: int| ps[i].model())
}

impl SimDiscovery {
    /// The announcements, oldest first.
    pub closed spec fn announced(&self) -> Seq<PeerModel> {
        peers_model(self.peers@)
    }

    /// An empty registry.
    pub fn new() -> (d: SimDiscovery)
        ensures
            d.announced() == Seq::<PeerModel>::empty(),
    {
        let d = SimDiscovery { peers: Vec::new() };
        assert(d.announced() =~= Seq::<PeerModel>::empty());
        d
    }
}

impl Discovery for SimDiscovery {
    /// Record the announcement after the earlier ones.
    fn announce(&mut self, room: &str, manifest: GrooveManifest)
        ensures
            final(self).announced() == old(self).announced().push(
                PeerModel { service_id: manifest.service_id@, room: room@, manifest: manifest.model() },
            ),
    {
        let ghost before = self.peers@;
        let p = DiscoveredPeer {
            service_id: manifest.service_id.clone(),
            room: room.to_owned(),
            manifest,
        };
        self.peers.push(p);
        assert(peers_model(self.peers@) =~= peers_model(before).push(p.model()));
    }

    /// Every announcement, oldest first.
    fn discover(&self) -> (v: Vec<DiscoveredPeer>)
        ensures
            peers_model(v@) == self.announced(),
    {
        let mut v: Vec<DiscoveredPeer> = Vec::new();
        let mut i: usize = 0;
        while i < self.peers.len()
            invariant
                i <= self.peers@.len(),
                v@.len() == i,
                forall|j: int| 0 <= j < i ==> v@[j].model() == self.peers@[j].model(),
            decreases self.peers@.len() - i,
        {
            v.push(self.peers[i].clone());
            i += 1;
        }
        assert(peers_model(v@) =~= peers_model(self.peers@));
        v
    }
}

/// The diagnostic text of a manifest error.
pub open spec fn manifest_error_text(e: ManifestError) -> Seq<char> {
    match e {
        ManifestError::WrongGrooveVersion(v) => "groove_version must be \"1\", got "@ + debug_quoted(
            v@,
        ),
        ManifestError::BadServiceId(s) => "service_id "@ + debug_quoted(s@)
            + " violates ^[a-z][a-z0-9_-]*$"@,
        ManifestError::NoCapabilities => "manifest advertises no capabilities"@,
        ManifestError::BadServiceVersion(v) => "service_version "@ + debug_quoted(v@)
            + " is not semver-ish (X.Y.Z)"@,
    }
}

impl ManifestError {
    /// The diagnostic for this error.
    pub fn to_display_string(&self) -> (s: String)
        ensures
            s@ == manifest_error_text(*self),
    {
        match self {
            ManifestError::WrongGrooveVersion(v) => {
                let mut s = String::from_str("groove_version must be \"1\", got ");
                s.append(debug_quote(v.as_str()).as_str());
                s
            },
            ManifestError::BadServiceId(id) => {
                let mut s = String::from_str("service_id ");
                s.append(debug_quote(id.as_str()).as_str());
                s.append(" violates ^[a-z][a-z0-9_-]*$");
                s
            },
            ManifestError::NoCapabilities => "manifest advertises no capabilities".to_owned(),
            ManifestError::BadServiceVersion(v) => {
                let mut s = String::from_str("service_version ");
                s.append(debug_quote(v.as_str()).as_str());
                s.append(" is not semver-ish (X.Y.Z)");
                s
            },
        }
    }
}

} // verus!
