//! The live transport binding: WebRTC data channels brokered by Burble.
//!
//! The live data channel needs a running Burble bridge and signaling
//! endpoint, which this build does not have. `BurbleTransport` therefore
//! reports `NotWired` from every operation that would need the live link,
//! stages broadcast ops instead of dropping them, and never panics.

use vstd::prelude::*;
use crate::session::{Op, Transport};

verus! {

/// Connection parameters for a Burble-brokered WebRTC session.
#[derive(Clone, Debug, PartialEq, Eq)]
pub struct BurbleConfig {
    /// Burble signaling base URL (Phoenix Channels endpoint).
    pub signaling_url: String,
    /// Room code shared out of band with the other peers.
    pub room_code: String,
    /// Local data bridge websocket.
    pub bridge_ws: String,
}

impl Default for BurbleConfig {
    /// Local signaling, no room, the default bridge port.
    fn default() -> (c: BurbleConfig)
        ensures
            c.signaling_url@ == "https://localhost/socket"@,
            c.room_code@ == Seq::<char>::empty(),
            c.bridge_ws@ == "ws://127.0.0.1:6475"@,
    {
        BurbleConfig {
            signaling_url: "https://localhost/socket".to_owned(),
            room_code: String::new(),
            bridge_ws: "ws://127.0.0.1:6475".to_owned(),
        }
    }
}

/// Why a live-transport operation could not complete.
#[derive(Clone, Copy, Debug, PartialEq, Eq, Structural)]
pub enum TransportError {
    /// The live Burble/WebRTC binding is not present in this build.
    NotWired,
}

impl TransportError {
    /// The diagnostic for this error.
    pub fn to_display_string(&self) -> (s: String)
        ensures
            s@ == "Burble WebRTC transport is not wired in this build; the live data channel requires a running Burble bridge (ws://127.0.0.1:6475) and signaling endpoint"@,
    {
        "Burble WebRTC transport is not wired in this build; the live data channel requires a running Burble bridge (ws://127.0.0.1:6475) and signaling endpoint".to_owned()
    }
}

/// The live WebRTC-over-Burble transport: its configuration and the ops
/// staged while no channel is established.
pub struct BurbleTransport {
    config: BurbleConfig,
    pending_out: Vec<Op>,
}

impl BurbleTransport {
    /// The configuration it was built with.
    pub closed spec fn config_of(&self) -> BurbleConfig {
        self.config
    }

    /// The ops staged for sending, oldest first.
    pub closed spec fn staged(&self) -> Seq<Op> {
        self.pending_out@
    }

    /// An unconnected transport for `config`.
    pub fn new(config: BurbleConfig) -> (t: BurbleTransport)
        ensures
            t.config_of() == config,
            t.staged() == Seq::<Op>::empty(),
    {
        BurbleTransport { config, pending_out: Vec::new() }
    }

    /// The connection parameters.
    pub fn config(&self) -> (c: &BurbleConfig)
        ensures
            *c == self.config_of(),
    {
        &self.config
    }

    /// Whether the live data channel is established: never, in this build.
    pub fn is_connected(&self) -> (b: bool)
        ensures
            !b,
    {
        false
    }

    /// Establish the data channel: `NotWired` in this build.
    pub fn connect(&mut self) -> (r: Result<(), TransportError>)
        ensures
            r == Err::<(), TransportError>(TransportError::NotWired),
            final(self).config_of() == old(self).config_of(),
            final(self).staged() == old(self).staged(),
    {
        Err(TransportError::NotWired)
    }

    /// The ops broadcast while disconnected, oldest first.
    pub fn pending(&self) -> (p: &[Op])
        ensures
            p@ == self.staged(),
    {
        self.pending_out.as_slice()
    }
}

/// Staging keeps every broadcast op, in order: a transport that starts
/// with nothing staged and then broadcasts `ops[0]`, `ops[1]`, ... in turn
/// (each step as `broadcast` ensures) has exactly `ops` staged, which is
/// what `pending` returns.
pub proof fn law_broadcasts_staged_in_order(states: Seq<BurbleTransport>, ops: Seq<Op>)
    requires
        states.len() == ops.len() + 1,
        states[0].staged() == Seq::<Op>::empty(),
        forall|i: int|
            0 <= i < ops.len() ==> #[trigger] states[i + 1].staged() == states[i].staged().push(ops[i]),
    ensures
        states.last().staged() == ops,
{
    lemma_staged_prefix(states, ops, ops.len() as int);
    assert(ops.take(ops.len() as int) =~= ops);
}

proof fn lemma_staged_prefix(states: Seq<BurbleTransport>, ops: Seq<Op>, k: int)
    requires
        states.len() == ops.len() + 1,
        0 <= k <= ops.len(),
        states[0].staged() == Seq::<Op>::empty(),
        forall|i: int|
            0 <= i < ops.len() ==> #[trigger] states[i + 1].staged() == states[i].staged().push(ops[i]),
    ensures
        states[k].staged() == ops.take(k),
    decreases k,
{
    if k == 0 {
        assert(ops.take(0) =~= Seq::<Op>::empty());
    } else {
        lemma_staged_prefix(states, ops, k - 1);
        assert(states[(k - 1) + 1].staged() == states[k - 1].staged().push(ops[k - 1]));
        assert(ops.take(k) =~= ops.take(k - 1).push(ops[k - 1]));
    }
}

impl Transport for BurbleTransport {
    /// What was broadcast is what is staged: nothing is ever sent on.
    open spec fn sent(&self) -> Seq<Op> {
        self.staged()
    }

    /// Nothing is ever received.
    open spec fn received(&self) -> Seq<Op> {
        Seq::empty()
    }

    /// Stage `op` for sending: it is kept, not dropped.
    fn broadcast(&mut self, op: Op)
        ensures
            final(self).staged() == old(self).staged().push(op),
            final(self).config_of() == old(self).config_of(),
    {
        self.pending_out.push(op);
    }

    /// Nothing ever arrives without a live channel.
    fn drain_inbox(&mut self) -> (v: Vec<Op>)
        ensures
            v@ == Seq::<Op>::empty(),
            final(self).staged() == old(self).staged(),
            final(self).config_of() == old(self).config_of(),
    {
        let v = Vec::new();
        assert(Seq::<Op>::empty() + v@ =~= Seq::<Op>::empty());
        v
    }
}

} // verus!
