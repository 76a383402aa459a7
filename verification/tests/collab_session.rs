use paint_type::crdt::{PeerId, VPixel};
use paint_type::permission::{Capability, CapabilitySet, PermissionTable};
use paint_type::session::sim::{Network, SimTransport};
use paint_type::session::{Op, Session, SessionError, Transport};
use paint_type::crdt::TileMergeError;

fn editor_table(peers: &[u64]) -> PermissionTable {
    let mut t = PermissionTable::new();
    for &p in peers {
        t.grant(PeerId(p), CapabilitySet::editor());
    }
    t
}

#[test]
fn two_peer_paint_converges() {
    let net = Network::new();
    let mut a = Session::new(PeerId(1), editor_table(&[1, 2]));
    let mut b = Session::new(PeerId(2), editor_table(&[1, 2]));
    let mut ta = SimTransport::new(1, vec![1, 2], net.clone());
    let mut tb = SimTransport::new(2, vec![1, 2], net.clone());

    a.local_paint((0, 0), 10, [100, 0, 0, 0], &mut ta).unwrap();
    b.local_paint((0, 0), 10, [200, 0, 0, 0], &mut tb).unwrap();

    a.pump(&mut ta);
    b.pump(&mut tb);

    assert_eq!(a.canvas_digest(), b.canvas_digest());
    assert_eq!(a.read_pixel((0, 0), 10).unwrap(), [200, 0, 0, 0]);
}

#[test]
fn denied_paint_does_not_mutate_or_broadcast() {
    let net = Network::new();
    let mut t = PermissionTable::new();
    t.grant(PeerId(1), CapabilitySet::observer());
    let mut a = Session::new(PeerId(1), t);
    let mut ta = SimTransport::new(1, vec![1, 2], net.clone());

    let r = a.local_paint((0, 0), 0, [1, 1, 1, 1], &mut ta);
    assert!(matches!(r, Err(SessionError::Denied(_))));
    assert!(a.canvas_digest().is_empty());
    let mut tb = SimTransport::new(2, vec![1, 2], net.clone());
    assert!(tb.drain_inbox().is_empty());
}

#[test]
fn receive_gate_rejects_revoked_originator() {
    let net = Network::new();
    let mut a = Session::new(PeerId(1), editor_table(&[1]));
    let mut b = Session::new(PeerId(2), {
        let mut t = PermissionTable::new();
        t.grant(PeerId(2), CapabilitySet::editor());
        t
    });
    let mut ta = SimTransport::new(1, vec![1, 2], net.clone());
    let mut tb = SimTransport::new(2, vec![1, 2], net.clone());

    a.local_paint((0, 0), 0, [9, 9, 9, 9], &mut ta).unwrap();
    let rejected = b.pump(&mut tb);
    assert_eq!(rejected.len(), 1);
    assert!(matches!(rejected[0].1, SessionError::Denied(_)));
    assert!(b.canvas_digest().is_empty());
}

#[test]
fn out_of_range_paint_is_a_tile_error() {
    let net = Network::new();
    let mut a = Session::new(PeerId(1), editor_table(&[1]));
    let mut ta = SimTransport::new(1, vec![1], net.clone());
    let r = a.local_paint((0, 0), 4096, [1, 1, 1, 1], &mut ta);
    assert_eq!(r, Err(SessionError::Tile(TileMergeError::IndexOutOfRange)));
    assert!(a.canvas_digest().is_empty());
    assert_eq!(a.read_pixel((0, 0), 4096), Ok([0, 0, 0, 0]));
    a.local_paint((0, 0), 0, [1, 1, 1, 1], &mut ta).unwrap();
    assert_eq!(a.read_pixel((0, 0), 4096), Err(SessionError::Tile(TileMergeError::IndexOutOfRange)));
    assert_eq!(a.read_pixel((5, 5), 3), Ok([0, 0, 0, 0]));
}

#[test]
fn receive_is_idempotent_and_commutes() {
    let w1 = Op::Paint { coord: (1, 2), index: 7, write: VPixel::write(3, PeerId(1), [1, 0, 0, 0]) };
    let w2 = Op::Paint { coord: (1, 2), index: 7, write: VPixel::write(3, PeerId(2), [2, 0, 0, 0]) };
    let mut a = Session::new(PeerId(9), editor_table(&[1, 2, 9]));
    let mut b = Session::new(PeerId(9), editor_table(&[1, 2, 9]));
    assert_eq!(a.receive(w1), Ok(()));
    assert_eq!(a.receive(w2), Ok(()));
    assert_eq!(a.receive(w2), Ok(()));
    assert_eq!(b.receive(w2), Ok(()));
    assert_eq!(b.receive(w1), Ok(()));
    assert_eq!(a.canvas_digest(), b.canvas_digest());
    assert_eq!(a.read_pixel((1, 2), 7), Ok([2, 0, 0, 0]));
    assert_eq!(a.canvas_digest().len(), 1);
}

#[test]
fn layer_mutation_is_gated_and_recorded_nowhere_on_the_canvas() {
    let net = Network::new();
    let mut t = PermissionTable::new();
    t.grant(PeerId(1), CapabilitySet::observer());
    let mut a = Session::new(PeerId(1), t);
    let mut ta = SimTransport::new(1, vec![1, 2], net.clone());
    let r = a.local_layer_mutate(&mut ta);
    match r {
        Err(SessionError::Denied(e)) => assert_eq!(e.required, Capability::LayerMutate),
        other => panic!("expected denial, got {other:?}"),
    }
    a.permissions_mut().grant(PeerId(1), CapabilitySet::editor());
    let op = a.local_layer_mutate(&mut ta).unwrap();
    assert_eq!(op.originator(), PeerId(1));
    assert_eq!(op.required_capability(), Capability::LayerMutate);
    assert!(a.canvas_digest().is_empty());
    let mut tb = SimTransport::new(2, vec![1, 2], net.clone());
    assert_eq!(tb.drain_inbox(), vec![op]);
}

#[test]
fn receive_all_reports_rejections_in_order() {
    let mut s = Session::new(PeerId(2), editor_table(&[2]));
    let good = Op::Paint { coord: (0, 0), index: 1, write: VPixel::write(1, PeerId(2), [4, 4, 4, 4]) };
    let stranger = Op::Paint { coord: (0, 0), index: 2, write: VPixel::write(1, PeerId(8), [5, 5, 5, 5]) };
    let bad_index = Op::Paint { coord: (0, 0), index: 5000, write: VPixel::write(1, PeerId(2), [6, 6, 6, 6]) };
    let rejected = s.receive_all(vec![good, stranger, bad_index]);
    assert_eq!(rejected.len(), 2);
    assert_eq!(rejected[0].0, stranger);
    assert!(matches!(rejected[0].1, SessionError::Denied(_)));
    assert_eq!(rejected[1], (bad_index, SessionError::Tile(TileMergeError::IndexOutOfRange)));
    assert_eq!(s.read_pixel((0, 0), 1), Ok([4, 4, 4, 4]));
    assert_eq!(s.peer(), PeerId(2));
}

#[test]
fn local_write_is_later_than_every_received_write() {
    let net = Network::new();
    let mut a = Session::new(PeerId(1), editor_table(&[1, 2]));
    let mut ta = SimTransport::new(1, vec![1, 2], net.clone());
    let remote = Op::Paint { coord: (0, 0), index: 3, write: VPixel::write(41, PeerId(2), [9, 9, 9, 9]) };
    a.receive(remote).unwrap();
    match a.local_paint((0, 0), 4, [1, 1, 1, 1], &mut ta).unwrap() {
        Op::Paint { write, .. } => assert_eq!(write.dot.lamport, 42),
        _ => panic!("expected a paint op"),
    }
}

#[test]
fn any_order_and_repetition_converges() {
    let t = editor_table(&[1, 2, 3]);
    let o1 = Op::Paint { coord: (0, 0), index: 1, write: VPixel::write(1, PeerId(1), [1, 0, 0, 0]) };
    let o2 = Op::Paint { coord: (0, 0), index: 1, write: VPixel::write(1, PeerId(2), [2, 0, 0, 0]) };
    let o3 = Op::Paint { coord: (1, 0), index: 7, write: VPixel::write(5, PeerId(3), [3, 0, 0, 0]) };
    let mut x = Session::new(PeerId(9), t.clone());
    let mut y = Session::new(PeerId(9), t);
    x.receive_all(vec![o1, o2, o3]);
    y.receive_all(vec![o3, o2, o2, o1, o3]);
    assert_eq!(x.canvas_digest(), y.canvas_digest());
}
