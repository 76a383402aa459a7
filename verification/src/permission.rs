//! Per-peer capability model for collaborative sessions.
//!
//! Every session-mutating action is gated by a capability. The host grants
//! each peer a `CapabilitySet`; an action whose capability the peer lacks
//! is refused with a `CapabilityError`, never silently accepted.

use vstd::prelude::*;
use crate::crdt::PeerId;
use crate::text::u64_to_decimal;
use std::collections::BTreeMap;

verus! {

broadcast use {vstd::std_specs::btree::group_btree_axioms, vstd::laws_cmp::group_laws_cmp};

/// A capability a peer may hold within a session.
#[derive(Clone, Copy, Debug, PartialEq, Eq, Structural, PartialOrd, Ord, Hash)]
pub enum Capability {
    /// Observe canvas state and the edit stream.
    Read,
    /// Apply pixel writes to tiles.
    Paint,
    /// Mutate the layer stack.
    LayerMutate,
    /// Invite a new peer into the session.
    Invite,
    /// Remove a peer from the session.
    Kick,
}

/// The bit that stands for a capability in a `CapabilitySet`.
pub open spec fn cap_bit(c: Capability) -> u8 {
    match c {
        Capability::Read => 1,
        Capability::Paint => 2,
        Capability::LayerMutate => 4,
        Capability::Invite => 8,
        Capability::Kick => 16,
    }
}

/// The name of a capability used in diagnostics.
pub open spec fn cap_name(c: Capability) -> Seq<char> {
    match c {
        Capability::Read => "read"@,
        Capability::Paint => "paint"@,
        Capability::LayerMutate => "layer-mutate"@,
        Capability::Invite => "invite"@,
        Capability::Kick => "kick"@,
    }
}

impl Capability {
    /// All five capabilities, in declaration order.
    pub fn all() -> (r: [Capability; 5])
        ensures
            r@ == seq![
                Capability::Read,
                Capability::Paint,
                Capability::LayerMutate,
                Capability::Invite,
                Capability::Kick,
            ],
    {
        let r = [
            Capability::Read,
            Capability::Paint,
            Capability::LayerMutate,
            Capability::Invite,
            Capability::Kick,
        ];
        assert(r@ =~= seq![
            Capability::Read,
            Capability::Paint,
            Capability::LayerMutate,
            Capability::Invite,
            Capability::Kick,
        ]);
        r
    }

    fn bit(self) -> (b: u8)
        ensures
            b == cap_bit(self),
    {
        match self {
            Capability::Read => 1,
            Capability::Paint => 2,
            Capability::LayerMutate => 4,
            Capability::Invite => 8,
            Capability::Kick => 16,
        }
    }

    /// Human-readable name used in error messages.
    pub fn name(self) -> (r: &'static str)
        ensures
            r@ == cap_name(self),
    {
        match self {
            Capability::Read => "read",
            Capability::Paint => "paint",
            Capability::LayerMutate => "layer-mutate",
            Capability::Invite => "invite",
            Capability::Kick => "kick",
        }
    }
}

proof fn lemma_single_bits(x: u8, b: u8, c: u8)
    by (bit_vector)
    requires
        b == 1 || b == 2 || b == 4 || b == 8 || b == 16,
        c == 1 || c == 2 || c == 4 || c == 8 || c == 16,
    ensures
        ((x | b) & c != 0) == ((x & c != 0) || b == c),
        ((x & !b) & c != 0) == ((x & c != 0) && b != c),
        (0u8 & c) == 0,
        (b & c != 0) == (b == c),
{
}

proof fn lemma_bits_distinct(a: Capability, b: Capability)
    ensures
        cap_bit(a) == cap_bit(b) <==> a == b,
        cap_bit(a) == 1 || cap_bit(a) == 2 || cap_bit(a) == 4 || cap_bit(a) == 8 || cap_bit(a) == 16,
{
}

/// The set of capabilities one peer holds: a bitset over the five
/// capabilities.
#[derive(Clone, Copy, Debug, PartialEq, Eq, Structural, Hash)]
pub struct CapabilitySet(u8);

impl CapabilitySet {
    /// Whether the set holds `c`.
    pub closed spec fn contains(self, c: Capability) -> bool {
        self.0 & cap_bit(c) != 0
    }

    /// The empty set.
    pub fn none() -> (s: CapabilitySet)
        ensures
            forall|c: Capability| !s.contains(c),
    {
        proof {
            assert forall|c: Capability| !CapabilitySet(0).contains(c) by {
                lemma_bits_distinct(c, c);
                lemma_single_bits(0, cap_bit(c), cap_bit(c));
            }
        }
        CapabilitySet(0)
    }

    /// The set of the capabilities listed in `caps`.
    pub fn of(caps: &[Capability]) -> (s: CapabilitySet)
        ensures
            forall|c: Capability| s.contains(c) <==> caps@.contains(c),
    {
        let mut s = CapabilitySet::none();
        let mut i: usize = 0;
        while i < caps.len()
            invariant
                i <= caps@.len(),
                forall|c: Capability| s.contains(c) <==> caps@.take(i as int).contains(c),
            decreases caps@.len() - i,
        {
            let ghost prev = s;
            s = s.with(caps[i]);
            proof {
                let t = caps@.take(i as int);
                let x = caps@[i as int];
                assert(caps@.take(i + 1) =~= t.push(x));
                assert forall|c: Capability| t.push(x).contains(c) <==> (t.contains(c) || c == x) by {
                    if t.push(x).contains(c) {
                        let k = choose|k: int| 0 <= k < t.push(x).len() && #[trigger] t.push(x)[k] == c;
                        if k < t.len() {
                            assert(t[k] == c);
                        }
                    }
                    if t.contains(c) {
                        let k = choose|k: int| 0 <= k < t.len() && #[trigger] t[k] == c;
                        assert(t.push(x)[k] == c);
                    }
                    if c == x {
                        assert(t.push(x)[t.len() as int] == c);
                    }
                }
                assert forall|c: Capability| s.contains(c) <==> caps@.take(i + 1).contains(c) by {
                    assert(prev.contains(c) <==> t.contains(c));
                    assert(s.contains(c) <==> (prev.contains(c) || c == x));
                }
            }
            i += 1;
        }
        assert(caps@.take(caps@.len() as int) =~= caps@);
        s
    }

    /// A read-only observer: `Read` only.
    pub fn observer() -> (s: CapabilitySet)
        ensures
            forall|c: Capability| s.contains(c) <==> c == Capability::Read,
    {
        CapabilitySet::none().with(Capability::Read)
    }

    /// A collaborating editor: `Read`, `Paint` and `LayerMutate`.
    pub fn editor() -> (s: CapabilitySet)
        ensures
            forall|c: Capability|
                s.contains(c) <==> (c == Capability::Read || c == Capability::Paint || c
                    == Capability::LayerMutate),
    {
        CapabilitySet::none().with(Capability::Read).with(Capability::Paint).with(
            Capability::LayerMutate,
        )
    }

    /// The session host: every capability.
    pub fn host() -> (s: CapabilitySet)
        ensures
            forall|c: Capability| s.contains(c),
    {
        CapabilitySet::none().with(Capability::Read).with(Capability::Paint).with(
            Capability::LayerMutate,
        ).with(Capability::Invite).with(Capability::Kick)
    }

    /// Whether the set holds `cap`.
    pub fn has(self, cap: Capability) -> (r: bool)
        ensures
            r == self.contains(cap),
    {
        self.0 & cap.bit() != 0
    }

    /// The set with `cap` added.
    pub fn with(self, cap: Capability) -> (s: CapabilitySet)
        ensures
            forall|c: Capability| s.contains(c) <==> (self.contains(c) || c == cap),
    {
        let r = CapabilitySet(self.0 | cap.bit());
        proof {
            assert forall|c: Capability| r.contains(c) <==> (self.contains(c) || c == cap) by {
                lemma_bits_distinct(c, cap);
                lemma_bits_distinct(cap, cap);
                lemma_single_bits(self.0, cap_bit(cap), cap_bit(c));
            }
        }
        r
    }

    /// The set with `cap` removed.
    pub fn without(self, cap: Capability) -> (s: CapabilitySet)
        ensures
            forall|c: Capability| s.contains(c) <==> (self.contains(c) && c != cap),
    {
        let r = CapabilitySet(self.0 & !cap.bit());
        proof {
            assert forall|c: Capability| r.contains(c) <==> (self.contains(c) && c != cap) by {
                lemma_bits_distinct(c, cap);
                lemma_bits_distinct(cap, cap);
                lemma_single_bits(self.0, cap_bit(cap), cap_bit(c));
            }
        }
        r
    }
}

impl Default for CapabilitySet {
    /// The empty set.
    fn default() -> (s: CapabilitySet)
        ensures
            forall|c: Capability| !s.contains(c),
    {
        CapabilitySet::none()
    }
}

/// Adding and then removing a capability that was absent gives the set
/// back; removing one and adding it back gives a set holding it.
pub proof fn law_with_without(s: CapabilitySet, c: Capability)
    ensures
        !s.contains(c) ==> forall|d: Capability|
            (s.contains(d) || d == c) && d != c <==> s.contains(d),
        forall|d: Capability| (s.contains(d) && d != c) || d == c <==> (s.contains(d) || d == c),
{
}

/// The refusal of an action: the acting peer and the missing capability.
#[derive(Clone, Copy, Debug, PartialEq, Eq, Structural)]
pub struct CapabilityError {
    /// The peer that attempted the action.
    pub peer: PeerId,
    /// The capability that was required but absent.
    pub required: Capability,
}

impl CapabilityError {
    /// The diagnostic `peer <id> denied: missing capability `<name>``.
    pub fn to_display_string(&self) -> (s: String)
        ensures
            s@ == "peer "@ + crate::text::decimal(self.peer.0 as nat) + " denied: missing capability `"@
                + cap_name(self.required) + "`"@,
    {
        let mut s = String::from_str("peer ");
        let id = u64_to_decimal(self.peer.0);
        s.append(id.as_str());
        s.append(" denied: missing capability `");
        s.append(self.required.name());
        s.append("`");
        s
    }
}

/// The capabilities held by `peer` under the grants `g`: the granted set,
/// or the empty set for an unknown peer.
pub open spec fn caps_in(g: Map<u64, CapabilitySet>, peer: PeerId, c: Capability) -> bool {
    g.contains_key(peer.0) && g[peer.0].contains(c)
}

/// The session-wide grant table.
#[derive(Clone, Debug)]
pub struct PermissionTable {
    grants: BTreeMap<u64, CapabilitySet>,
}

impl PermissionTable {
    /// The grants, keyed by peer id.
    pub closed spec fn grants(&self) -> Map<u64, CapabilitySet> {
        self.grants@
    }

    /// Whether `peer` holds `c` under this table.
    pub open spec fn allows(&self, peer: PeerId, c: Capability) -> bool {
        caps_in(self.grants(), peer, c)
    }

    /// An empty table: nobody may do anything until granted.
    pub fn new() -> (t: PermissionTable)
        ensures
            t.grants() == Map::<u64, CapabilitySet>::empty(),
    {
        PermissionTable { grants: BTreeMap::new() }
    }

    /// Grant (replace) a peer's capability set.
    pub fn grant(&mut self, peer: PeerId, caps: CapabilitySet)
        ensures
            final(self).grants() == old(self).grants().insert(peer.0, caps),
    {
        self.grants.insert(peer.0, caps);
    }

    /// Revoke all of a peer's capabilities.
    pub fn revoke(&mut self, peer: PeerId)
        ensures
            final(self).grants() == old(self).grants().remove(peer.0),
    {
        let k = peer.0;
        self.grants.remove(&k);
    }

    /// The capabilities `peer` holds (the empty set if unknown).
    pub fn caps(&self, peer: PeerId) -> (s: CapabilitySet)
        ensures
            forall|c: Capability| s.contains(c) <==> self.allows(peer, c),
            self.grants().contains_key(peer.0) ==> s == self.grants()[peer.0],
    {
        let k = peer.0;
        match self.grants.get(&k) {
            Some(s) => *s,
            None => CapabilitySet::none(),
        }
    }

    /// `Ok` when `peer` holds `required`; otherwise the refusal naming both.
    pub fn check(&self, peer: PeerId, required: Capability) -> (r: Result<(), CapabilityError>)
        ensures
            self.allows(peer, required) ==> r == Ok::<(), CapabilityError>(()),
            !self.allows(peer, required) ==> r == Err::<(), CapabilityError>(
                CapabilityError { peer, required },
            ),
    {
        if self.caps(peer).has(required) {
            Ok(())
        } else {
            Err(CapabilityError { peer, required })
        }
    }
}

impl Default for PermissionTable {
    /// An empty table.
    fn default() -> (t: PermissionTable)
        ensures
            t.grants() == Map::<u64, CapabilitySet>::empty(),
    {
        PermissionTable::new()
    }
}

/// What a grant gives: after `grant(p, s)`, `p` holds exactly `s`, and
/// every other peer keeps what it held.
pub proof fn law_grant_then_check(t: Map<u64, CapabilitySet>, p: PeerId, s: CapabilitySet, q: PeerId, c: Capability)
    ensures
        caps_in(t.insert(p.0, s), p, c) == s.contains(c),
        q.0 != p.0 ==> caps_in(t.insert(p.0, s), q, c) == caps_in(t, q, c),
{
}

/// A revoked peer holds nothing, and other peers are unaffected.
pub proof fn law_revoke_denies_all(t: Map<u64, CapabilitySet>, p: PeerId, q: PeerId, c: Capability)
    ensures
        !caps_in(t.remove(p.0), p, c),
        q.0 != p.0 ==> caps_in(t.remove(p.0), q, c) == caps_in(t, q, c),
{
}

} // verus!
