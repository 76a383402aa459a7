//! The optional assistant channel of a collaborative session.
//!
//! The assistant is off by default, acts as an ordinary peer with its own
//! id, and never bypasses the permission model: an action becomes an `Op`
//! only if the assistant peer holds the capability the action needs, and
//! that op then passes the session's own receive gate like any other.

use vstd::prelude::*;
use crate::crdt::{PeerId, Rgba, VPixel, Dot};
use crate::permission::{Capability, CapabilityError, PermissionTable};
use crate::session::Op;

verus! {

/// A request the assistant makes of the session.
#[derive(Clone, Copy, Debug, PartialEq, Eq)]
pub enum AssistantAction {
    /// Suggest painting a pixel.
    Paint { coord: (i32, i32), index: usize, value: Rgba, lamport: u64 },
}

/// Why an assistant action did not produce an applicable op.
#[derive(Clone, Copy, Debug, PartialEq, Eq)]
pub enum LlmError {
    /// The channel is disabled (the default).
    Disabled,
    /// The assistant peer lacks the capability the action needs.
    Denied(CapabilityError),
    /// The live assistant gateway is not wired in this build.
    GatewayUnavailable,
}

impl LlmError {
    /// The diagnostic for this error.
    pub fn to_display_string(&self) -> (s: String)
        ensures
            *self == LlmError::Disabled ==> s@ == "LLM channel is disabled (off by default)"@,
            *self == LlmError::GatewayUnavailable ==> s@
                == "boj-server MCP gateway not wired in this build"@,
            self matches LlmError::Denied(e) ==> s@ == "assistant action denied: "@
                + "peer "@ + crate::text::decimal(e.peer.0 as nat)
                + " denied: missing capability `"@ + crate::permission::cap_name(e.required) + "`"@,
    {
        match self {
            LlmError::Disabled => "LLM channel is disabled (off by default)".to_owned(),
            LlmError::Denied(e) => {
                let mut s = String::from_str("assistant action denied: ");
                let inner = e.to_display_string();
                s.append(inner.as_str());
                s
            },
            LlmError::GatewayUnavailable => "boj-server MCP gateway not wired in this build".to_owned(),
        }
    }
}

/// The assistant channel: whether it is on, and the assistant's peer id.
#[derive(Clone, Copy, Debug)]
pub struct LlmChannel {
    enabled: bool,
    assistant_peer: PeerId,
}

impl LlmChannel {
    /// Whether the channel is on.
    pub closed spec fn on(&self) -> bool {
        self.enabled
    }

    /// The assistant's peer id.
    pub closed spec fn peer_of(&self) -> PeerId {
        self.assistant_peer
    }

    /// A channel for the assistant `assistant_peer`, disabled.
    pub fn new(assistant_peer: PeerId) -> (c: LlmChannel)
        ensures
            !c.on(),
            c.peer_of() == assistant_peer,
    {
        LlmChannel { enabled: false, assistant_peer }
    }

    /// Whether the channel is enabled.
    pub fn is_enabled(&self) -> (b: bool)
        ensures
            b == self.on(),
    {
        self.enabled
    }

    /// The assistant's peer identity.
    pub fn assistant_peer(&self) -> (p: PeerId)
        ensures
            p == self.peer_of(),
    {
        self.assistant_peer
    }

    /// Turn the channel on.
    pub fn enable(&mut self)
        ensures
            final(self).on(),
            final(self).peer_of() == old(self).peer_of(),
    {
        self.enabled = true;
    }

    /// Turn the channel off.
    pub fn disable(&mut self)
        ensures
            !final(self).on(),
            final(self).peer_of() == old(self).peer_of(),
    {
        self.enabled = false;
    }

    /// Turn an assistant action into a permission-checked op: `Disabled`
    /// while off; `Denied` (and no op at all) if the assistant peer lacks
    /// the capability; otherwise the op, attributed to the assistant.
    pub fn propose(&self, perms: &PermissionTable, action: AssistantAction) -> (r: Result<Op, LlmError>)
        ensures
            r == proposal(self.on(), self.peer_of(), perms.grants(), action),
    {
        if !self.enabled {
            return Err(LlmError::Disabled);
        }
        match action {
            AssistantAction::Paint { coord, index, value, lamport } => {
                match perms.check(self.assistant_peer, Capability::Paint) {
                    Ok(_) => {},
                    Err(e) => return Err(LlmError::Denied(e)),
                }
                Ok(Op::Paint { coord, index, write: VPixel::write(lamport, self.assistant_peer, value) })
            },
        }
    }
}

/// What `propose` returns for a channel that is `on` or not, with
/// assistant `peer`, under the grants `g`.
pub open spec fn proposal(
    on: bool,
    peer: PeerId,
    g: Map<u64, crate::permission::CapabilitySet>,
    action: AssistantAction,
) -> Result<Op, LlmError> {
    if !on {
        Err(LlmError::Disabled)
    } else if !crate::permission::caps_in(g, peer, Capability::Paint) {
        Err(LlmError::Denied(CapabilityError { peer, required: Capability::Paint }))
    } else {
        match action {
            AssistantAction::Paint { coord, index, value, lamport } => Ok(
                Op::Paint { coord, index, write: VPixel { dot: Dot { lamport, peer }, value } },
            ),
        }
    }
}

/// The assistant never bypasses permissions: an op it produces is
/// attributed to the assistant peer, and is produced only when that peer
/// holds the capability the op needs, so the session's receive gate lets
/// it through exactly when the proposal gate did. A disabled channel
/// produces nothing.
pub proof fn law_assistant_never_bypasses_permissions(
    on: bool,
    peer: PeerId,
    g: Map<u64, crate::permission::CapabilitySet>,
    action: AssistantAction,
)
    ensures
        proposal(on, peer, g, action) matches Ok(op) ==> crate::session::op_originator(op) == peer
            && crate::permission::caps_in(
            g,
            crate::session::op_originator(op),
            crate::session::op_capability(op),
        ),
        !on ==> proposal(on, peer, g, action) == Err::<Op, LlmError>(LlmError::Disabled),
{
}

/// The live assistant gateway binding; not wired in this build.
pub struct BojGateway {
    endpoint: String,
}

impl BojGateway {
    /// The gateway endpoint.
    pub closed spec fn endpoint_of(&self) -> Seq<char> {
        self.endpoint@
    }

    /// A gateway binding for `endpoint`.
    pub fn new(endpoint: &str) -> (g: BojGateway)
        ensures
            g.endpoint_of() == endpoint@,
    {
        BojGateway { endpoint: endpoint.to_owned() }
    }

    /// The gateway endpoint.
    pub fn endpoint(&self) -> (e: &str)
        ensures
            e@ == self.endpoint_of(),
    {
        self.endpoint.as_str()
    }

    /// Request an assistant action: `GatewayUnavailable` in this build.
    pub fn request_action(&self) -> (r: Result<AssistantAction, LlmError>)
        ensures
            r == Err::<AssistantAction, LlmError>(LlmError::GatewayUnavailable),
    {
        Err(LlmError::GatewayUnavailable)
    }
}

} // verus!
