use paint_type::crdt::PeerId;
use paint_type::permission::{Capability, CapabilityError, CapabilitySet, PermissionTable};

#[test]
fn observer_can_read_but_not_paint() {
    let mut t = PermissionTable::new();
    t.grant(PeerId(1), CapabilitySet::observer());
    assert!(t.check(PeerId(1), Capability::Read).is_ok());
    assert_eq!(
        t.check(PeerId(1), Capability::Paint),
        Err(CapabilityError {
            peer: PeerId(1),
            required: Capability::Paint
        })
    );
}

#[test]
fn editor_paints_but_cannot_kick() {
    let mut t = PermissionTable::new();
    t.grant(PeerId(2), CapabilitySet::editor());
    assert!(t.check(PeerId(2), Capability::Paint).is_ok());
    assert!(t.check(PeerId(2), Capability::LayerMutate).is_ok());
    assert!(t.check(PeerId(2), Capability::Kick).is_err());
    assert!(t.check(PeerId(2), Capability::Invite).is_err());
}

#[test]
fn host_can_do_everything() {
    let mut t = PermissionTable::new();
    t.grant(PeerId(0), CapabilitySet::host());
    for c in Capability::all() {
        assert!(t.check(PeerId(0), c).is_ok(), "host missing {:?}", c);
    }
}

#[test]
fn unknown_peer_is_denied_everything() {
    let t = PermissionTable::new();
    for c in Capability::all() {
        assert!(t.check(PeerId(99), c).is_err());
    }
}

#[test]
fn revoke_removes_all_capabilities() {
    let mut t = PermissionTable::new();
    t.grant(PeerId(3), CapabilitySet::host());
    t.revoke(PeerId(3));
    assert!(t.check(PeerId(3), Capability::Read).is_err());
}

#[test]
fn error_message_names_the_capability() {
    let e = CapabilityError {
        peer: PeerId(7),
        required: Capability::LayerMutate,
    };
    assert_eq!(e.to_display_string(), "peer 7 denied: missing capability `layer-mutate`");
}

#[test]
fn capability_names_are_kebab_case() {
    let names: Vec<&str> = Capability::all().iter().map(|c| c.name()).collect();
    assert_eq!(names, vec!["read", "paint", "layer-mutate", "invite", "kick"]);
}

#[test]
fn with_then_without_round_trips() {
    let s = CapabilitySet::none().with(Capability::Kick);
    assert!(s.has(Capability::Kick));
    assert!(!s.has(Capability::Read));
    assert_eq!(s.without(Capability::Kick), CapabilitySet::none());
    assert_eq!(
        CapabilitySet::of(&[Capability::Read, Capability::Paint, Capability::LayerMutate]),
        CapabilitySet::editor()
    );
    assert_eq!(CapabilitySet::of(&Capability::all()), CapabilitySet::host());
    assert_eq!(CapabilitySet::default(), CapabilitySet::none());
}

#[test]
fn grant_replaces_and_caps_reports() {
    let mut t = PermissionTable::default();
    t.grant(PeerId(5), CapabilitySet::host());
    t.grant(PeerId(5), CapabilitySet::observer());
    assert_eq!(t.caps(PeerId(5)), CapabilitySet::observer());
    assert!(t.check(PeerId(5), Capability::Read).is_ok());
    assert!(t.check(PeerId(5), Capability::Kick).is_err());
    assert_eq!(t.caps(PeerId(6)), CapabilitySet::none());
}
