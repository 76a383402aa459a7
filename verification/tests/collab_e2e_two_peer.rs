use paint_type::crdt::PeerId;
use paint_type::groove::{paint_type_manifest, Discovery, SimDiscovery};
use paint_type::llm::{AssistantAction, LlmChannel, LlmError};
use paint_type::permission::{Capability, CapabilitySet, PermissionTable};
use paint_type::session::sim::{Network, SimTransport};
use paint_type::session::{Op, Session, SessionError, Transport};

const HOST: u64 = 1;
const GUEST: u64 = 2;
const OBSERVER: u64 = 3;
const ASSISTANT: u64 = 900;

fn session_perms() -> PermissionTable {
    let mut t = PermissionTable::new();
    t.grant(PeerId(HOST), CapabilitySet::host());
    t.grant(PeerId(GUEST), CapabilitySet::editor());
    t.grant(PeerId(OBSERVER), CapabilitySet::observer());
    t
}

#[test]
fn two_peer_session_converges_under_reordering() {
    let mut directory = SimDiscovery::new();
    directory.announce("room-paint-42", paint_type_manifest());
    let found = directory.discover();
    assert_eq!(found.len(), 1, "guest should discover the host's session");
    assert_eq!(found[0].service_id, "paint-type");
    assert!(found[0].manifest.validate().is_ok());

    let net = Network::new();
    let mut host = Session::new(PeerId(HOST), session_perms());
    let mut guest = Session::new(PeerId(GUEST), session_perms());
    let mut host_tx = SimTransport::new(HOST, vec![HOST, GUEST], net.clone());
    let mut guest_tx = SimTransport::new(GUEST, vec![HOST, GUEST], net.clone());

    let coord = (0, 0);
    let host_op = host
        .local_paint(coord, 100, [0xFF, 0, 0, 0xFF], &mut host_tx)
        .expect("host may paint");
    let guest_op = guest
        .local_paint(coord, 100, [0, 0xFF, 0, 0xFF], &mut guest_tx)
        .expect("guest may paint");
    host.local_paint(coord, 1, [1, 1, 1, 1], &mut host_tx).unwrap();
    guest.local_paint(coord, 4096 - 1, [2, 2, 2, 2], &mut guest_tx).unwrap();

    host_tx.inject(guest_op);
    guest_tx.inject(host_op);
    host.pump(&mut host_tx);
    guest.pump(&mut guest_tx);
    host.pump(&mut host_tx);
    guest.pump(&mut guest_tx);

    assert_eq!(
        host.canvas_digest(),
        guest.canvas_digest(),
        "replicas must converge after exchanging all ops"
    );
    assert_eq!(host.read_pixel(coord, 100).unwrap(), [0, 0xFF, 0, 0xFF]);
    assert_eq!(guest.read_pixel(coord, 100).unwrap(), [0, 0xFF, 0, 0xFF]);

    let mut observer = Session::new(PeerId(OBSERVER), session_perms());
    let mut obs_tx = SimTransport::new(OBSERVER, vec![HOST, GUEST, OBSERVER], net.clone());
    let denied = observer.local_paint(coord, 0, [9, 9, 9, 9], &mut obs_tx);
    match denied {
        Err(SessionError::Denied(e)) => {
            assert_eq!(e.required, Capability::Paint);
            assert_eq!(e.peer, PeerId(OBSERVER));
        }
        other => panic!("observer paint must be denied, got {other:?}"),
    }
    assert!(observer.canvas_digest().is_empty(), "denied paint must not mutate");
    let mut sink_tx = SimTransport::new(HOST, vec![HOST], net.clone());
    assert!(sink_tx.drain_inbox().is_empty(), "denied paint must not enqueue an op");

    let mut llm = LlmChannel::new(PeerId(ASSISTANT));
    let action = AssistantAction::Paint {
        coord,
        index: 50,
        value: [7, 7, 7, 7],
        lamport: 99,
    };
    assert_eq!(llm.propose(host.permissions_mut(), action.clone()), Err(LlmError::Disabled));
    llm.enable();
    assert!(matches!(
        llm.propose(host.permissions_mut(), action.clone()),
        Err(LlmError::Denied(_))
    ));
    host.permissions_mut().grant(PeerId(ASSISTANT), CapabilitySet::editor());
    let op = llm
        .propose(host.permissions_mut(), action)
        .expect("permitted assistant produces an op");
    assert_eq!(op.originator(), PeerId(ASSISTANT));
    if let Op::Paint { write, .. } = op {
        assert_eq!(write.value, [7, 7, 7, 7]);
    } else {
        panic!("expected a paint op");
    }
}
