//! An in-process transport for tests and local multi-peer simulation.
//!
//! Each peer's inbox is a queue in a shared `Network`; `broadcast` pushes
//! to every other peer's queue. The network is shared between endpoints
//! through a cell, so what an endpoint reads from it is known only to be
//! some state of the network.

use vstd::prelude::*;
use vstd::cell::invcell::InvCell;
use std::collections::BTreeMap;
use std::rc::Rc;
use super::{Op, Transport};

verus! {

broadcast use {vstd::std_specs::btree::group_btree_axioms, vstd::laws_cmp::group_laws_cmp};

/// The shared mailboxes, keyed by peer index.
pub struct Network {
    inboxes: BTreeMap<u64, Vec<Op>>,
}

/// Any network state may be stored in the shared cell.
pub struct AnyNetwork;

impl vstd::predicate::Predicate<Network> for AnyNetwork {
    open spec fn predicate(&self, n: Network) -> bool {
        true
    }
}

impl Network {
    /// The mailboxes, keyed by peer index.
    pub closed spec fn inboxes(&self) -> Map<u64, Vec<Op>> {
        self.inboxes@
    }

    /// A fresh shared network with no mailboxes.
    pub fn new() -> Rc<InvCell<Network, AnyNetwork>> {
        let net = Network { inboxes: BTreeMap::new() };
        Rc::new(InvCell::new(net, Ghost(AnyNetwork)))
    }

    /// Append `op` to `peer`'s mailbox, creating the mailbox if needed.
    fn deliver(&mut self, peer: u64, op: Op)
        ensures
            final(self).inboxes().dom() == old(self).inboxes().dom().insert(peer),
            final(self).inboxes()[peer]@ == (if old(self).inboxes().contains_key(peer) {
                old(self).inboxes()[peer]@
            } else {
                Seq::empty()
            }).push(op),
            forall|p: u64|
                p != peer && #[trigger] old(self).inboxes().contains_key(p)
                    ==> final(self).inboxes()[p] == old(self).inboxes()[p],
    {
        let mut q = match self.inboxes.remove(&peer) {
            Some(q) => q,
            None => Vec::new(),
        };
        q.push(op);
        self.inboxes.insert(peer, q);
    }

    /// Take `peer`'s mailbox, leaving it empty.
    fn take(&mut self, peer: u64) -> (q: Vec<Op>)
        ensures
            q@ == (if old(self).inboxes().contains_key(peer) {
                old(self).inboxes()[peer]@
            } else {
                Seq::empty()
            }),
            final(self).inboxes().contains_key(peer),
            final(self).inboxes()[peer]@ == Seq::<Op>::empty(),
            forall|p: u64|
                p != peer && #[trigger] old(self).inboxes().contains_key(p)
                    ==> final(self).inboxes()[p] == old(self).inboxes()[p],
    {
        let q = match self.inboxes.remove(&peer) {
            Some(q) => q,
            None => Vec::new(),
        };
        self.inboxes.insert(peer, Vec::new());
        q
    }
}

/// A transport endpoint bound to one peer over a shared network.
pub struct SimTransport {
    me: u64,
    peers: Vec<u64>,
    net: Rc<InvCell<Network, AnyNetwork>>,
    sent_log: Ghost<Seq<Op>>,
    received_log: Ghost<Seq<Op>>,
}

impl SimTransport {
    /// The endpoint's own peer index.
    pub closed spec fn me(&self) -> u64 {
        self.me
    }

    /// The peer indices it broadcasts to (itself excepted).
    pub closed spec fn peers(&self) -> Seq<u64> {
        self.peers@
    }

    /// An endpoint for `me` broadcasting to `peers` (excluding `me`); it
    /// registers `me`'s mailbox.
    pub fn new(me: u64, peers: Vec<u64>, net: Rc<InvCell<Network, AnyNetwork>>) -> (t: SimTransport)
        ensures
            t.me() == me,
            t.peers() == peers@,
            t.sent() == Seq::<Op>::empty(),
            t.received() == Seq::<Op>::empty(),
    {
        let mut n = net.replace(Network { inboxes: BTreeMap::new() });
        let existing = n.inboxes.remove(&me);
        match existing {
            Some(q) => {
                n.inboxes.insert(me, q);
            },
            None => {
                n.inboxes.insert(me, Vec::new());
            },
        }
        let _ = net.replace(n);
        SimTransport { me, peers, net, sent_log: Ghost(Seq::empty()), received_log: Ghost(Seq::empty()) }
    }

    /// Put `op` straight into this endpoint's own mailbox (models duplicate
    /// or reordered delivery).
    pub fn inject(&self, op: Op) {
        let mut n = self.net.replace(Network { inboxes: BTreeMap::new() });
        n.deliver(self.me, op);
        let _ = self.net.replace(n);
    }
}

impl Transport for SimTransport {
    /// The ops this endpoint has broadcast, oldest first.
    closed spec fn sent(&self) -> Seq<Op> {
        self.sent_log@
    }

    /// The ops this endpoint has taken from its mailbox, in order.
    closed spec fn received(&self) -> Seq<Op> {
        self.received_log@
    }

    /// Push `op` into the mailbox of every listed peer other than this one.
    fn broadcast(&mut self, op: Op) {
        let mut n = self.net.replace(Network { inboxes: BTreeMap::new() });
        let mut i: usize = 0;
        while i < self.peers.len()
            decreases self.peers@.len() - i,
        {
            let p = self.peers[i];
            if p != self.me {
                n.deliver(p, op);
            }
            i += 1;
        }
        let _ = self.net.replace(n);
        self.sent_log = Ghost(self.sent_log@.push(op));
    }

    /// Take this endpoint's mailbox.
    fn drain_inbox(&mut self) -> (v: Vec<Op>) {
        let mut n = self.net.replace(Network { inboxes: BTreeMap::new() });
        let q = n.take(self.me);
        let _ = self.net.replace(n);
        self.received_log = Ghost(self.received_log@ + q@);
        q
    }
}

} // verus!
