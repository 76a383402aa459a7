use paint_type::crdt::{PeerId, VPixel};
use paint_type::session::{Op, Transport};
use paint_type::transport::{BurbleConfig, BurbleTransport, TransportError};

#[test]
fn scaffold_is_constructible_and_not_connected() {
    let t = BurbleTransport::new(BurbleConfig {
        room_code: "abc-123".into(),
        ..Default::default()
    });
    assert!(!t.is_connected());
    assert_eq!(t.config().room_code, "abc-123");
}

#[test]
fn connect_reports_not_wired_without_panicking() {
    let mut t = BurbleTransport::new(BurbleConfig::default());
    assert_eq!(t.connect(), Err(TransportError::NotWired));
}

#[test]
fn broadcast_while_disconnected_stages_not_drops() {
    let mut t = BurbleTransport::new(BurbleConfig::default());
    t.broadcast(Op::Paint {
        coord: (0, 0),
        index: 0,
        write: VPixel::write(1, PeerId(1), [1, 2, 3, 4]),
    });
    assert_eq!(t.pending().len(), 1);
    assert!(t.drain_inbox().is_empty());
}

#[test]
fn default_config_and_error_text() {
    let c = BurbleConfig::default();
    assert_eq!(c.signaling_url, "https://localhost/socket");
    assert_eq!(c.room_code, "");
    assert_eq!(c.bridge_ws, "ws://127.0.0.1:6475");
    assert!(TransportError::NotWired.to_display_string().starts_with("Burble WebRTC transport is not wired"));
}

#[test]
fn staged_ops_keep_their_order() {
    let mut t = BurbleTransport::new(BurbleConfig::default());
    let a = Op::LayerMutate { by: PeerId(1), seq: 1 };
    let b = Op::LayerMutate { by: PeerId(1), seq: 2 };
    t.broadcast(a);
    t.broadcast(b);
    assert_eq!(t.pending(), &[a, b]);
}
