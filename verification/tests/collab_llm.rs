use paint_type::crdt::PeerId;
use paint_type::llm::{AssistantAction, BojGateway, LlmChannel, LlmError};
use paint_type::permission::{Capability, CapabilityError, CapabilitySet, PermissionTable};
use paint_type::session::Op;

fn perms_with(peer: PeerId, caps: CapabilitySet) -> PermissionTable {
    let mut t = PermissionTable::new();
    t.grant(peer, caps);
    t
}

#[test]
fn off_by_default() {
    let ch = LlmChannel::new(PeerId(900));
    assert!(!ch.is_enabled());
    let perms = perms_with(PeerId(900), CapabilitySet::editor());
    let r = ch.propose(
        &perms,
        AssistantAction::Paint {
            coord: (0, 0),
            index: 0,
            value: [1, 1, 1, 1],
            lamport: 1,
        },
    );
    assert_eq!(r, Err(LlmError::Disabled));
}

#[test]
fn enabled_but_unpermissioned_assistant_is_denied() {
    let mut ch = LlmChannel::new(PeerId(900));
    ch.enable();
    let perms = perms_with(PeerId(900), CapabilitySet::observer());
    let r = ch.propose(
        &perms,
        AssistantAction::Paint {
            coord: (0, 0),
            index: 0,
            value: [1, 1, 1, 1],
            lamport: 1,
        },
    );
    assert!(matches!(r, Err(LlmError::Denied(_))));
}

#[test]
fn enabled_and_permitted_assistant_produces_gated_op() {
    let mut ch = LlmChannel::new(PeerId(900));
    ch.enable();
    let perms = perms_with(PeerId(900), CapabilitySet::editor());
    let op = ch
        .propose(
            &perms,
            AssistantAction::Paint {
                coord: (2, 3),
                index: 7,
                value: [5, 6, 7, 8],
                lamport: 4,
            },
        )
        .expect("permitted assistant should produce an op");
    assert_eq!(op.originator(), PeerId(900));
}

#[test]
fn gateway_is_unavailable_stub() {
    let g = BojGateway::new("mcp://localhost/boj");
    assert_eq!(g.endpoint(), "mcp://localhost/boj");
    assert_eq!(g.request_action(), Err(LlmError::GatewayUnavailable));
}

#[test]
fn permitted_proposal_carries_the_action_fields() {
    let mut ch = LlmChannel::new(PeerId(901));
    ch.enable();
    let perms = perms_with(PeerId(901), CapabilitySet::editor());
    let op = ch
        .propose(&perms, AssistantAction::Paint { coord: (-1, 4), index: 12, value: [9, 8, 7, 6], lamport: 33 })
        .unwrap();
    match op {
        Op::Paint { coord, index, write } => {
            assert_eq!(coord, (-1, 4));
            assert_eq!(index, 12);
            assert_eq!(write.value, [9, 8, 7, 6]);
            assert_eq!(write.dot.lamport, 33);
            assert_eq!(write.dot.peer, PeerId(901));
        }
        _ => panic!("expected a paint op"),
    }
}

#[test]
fn disable_turns_the_channel_off_again() {
    let mut ch = LlmChannel::new(PeerId(900));
    ch.enable();
    assert!(ch.is_enabled());
    ch.disable();
    assert!(!ch.is_enabled());
    assert_eq!(ch.assistant_peer(), PeerId(900));
}

#[test]
fn llm_error_messages() {
    assert_eq!(LlmError::Disabled.to_display_string(), "LLM channel is disabled (off by default)");
    assert_eq!(
        LlmError::GatewayUnavailable.to_display_string(),
        "boj-server MCP gateway not wired in this build"
    );
    let e = LlmError::Denied(CapabilityError { peer: PeerId(900), required: Capability::Paint });
    assert_eq!(
        e.to_display_string(),
        "assistant action denied: peer 900 denied: missing capability `paint`"
    );
}
