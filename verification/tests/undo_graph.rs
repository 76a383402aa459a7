use paint_type::undo::{RevId, UndoGraph};

#[test]
fn root_is_revid_zero_and_holds_initial_value() {
    let g: UndoGraph<&str> = UndoGraph::new("root");
    assert_eq!(RevId::root(), RevId(0));
    assert_eq!(g.checkout(RevId::root()), Some(&"root"));
    assert_eq!(g.len(), 1);
}

#[test]
fn parent_of_root_is_none() {
    let g: UndoGraph<u8> = UndoGraph::new(0);
    assert_eq!(g.parent_of(RevId::root()), None);
}

#[test]
fn commit_returns_sequential_ids() {
    let mut g: UndoGraph<u32> = UndoGraph::new(0);
    let a = g.commit(RevId::root(), 1);
    let b = g.commit(a, 2);
    let c = g.commit(b, 3);
    assert_eq!(a, RevId(1));
    assert_eq!(b, RevId(2));
    assert_eq!(c, RevId(3));
}

#[test]
fn linear_history_ancestry_one_directional() {
    let mut g: UndoGraph<&str> = UndoGraph::new("root");
    let a = g.commit(RevId::root(), "A");
    let b = g.commit(a, "B");
    let c = g.commit(b, "C");

    assert!(g.is_ancestor(RevId::root(), c));
    assert!(g.is_ancestor(a, c));
    assert!(g.is_ancestor(b, c));
    assert!(g.is_ancestor(a, b));

    assert!(g.is_ancestor(c, c));
    assert!(g.is_ancestor(RevId::root(), RevId::root()));

    assert!(!g.is_ancestor(c, b));
    assert!(!g.is_ancestor(c, a));
    assert!(!g.is_ancestor(b, a));
    assert!(!g.is_ancestor(c, RevId::root()));

    assert_eq!(g.parent_of(c), Some(b));
    assert_eq!(g.parent_of(b), Some(a));
    assert_eq!(g.parent_of(a), Some(RevId::root()));
    assert_eq!(g.parent_of(RevId::root()), None);
}

#[test]
fn branching_siblings_neither_is_ancestor_of_other() {
    let mut g: UndoGraph<u32> = UndoGraph::new(0);
    let a = g.commit(RevId::root(), 1);
    let b = g.commit(a, 2);
    let c = g.commit(a, 3);

    assert!(g.is_ancestor(a, b));
    assert!(g.is_ancestor(a, c));

    assert!(!g.is_ancestor(b, c));
    assert!(!g.is_ancestor(c, b));

    let kids = g.children_of(a);
    assert_eq!(kids, &[b, c]);

    assert_eq!(g.children_of(RevId::root()), &[a]);

    assert_eq!(g.children_of(b), &[]);
    assert_eq!(g.children_of(c), &[]);
}

#[test]
fn branch_alias_behaves_like_commit() {
    let mut g: UndoGraph<u32> = UndoGraph::new(0);
    let a = g.commit(RevId::root(), 1);
    let b = g.branch(a, 2);
    let c = g.branch(a, 3);
    assert_eq!(g.checkout(b), Some(&2));
    assert_eq!(g.checkout(c), Some(&3));
    assert_eq!(g.children_of(a), &[b, c]);
}

#[test]
fn checkout_of_nonexistent_revision_returns_none() {
    let g: UndoGraph<u32> = UndoGraph::new(42);
    assert_eq!(g.checkout(RevId(99)), None);
    assert_eq!(g.checkout(RevId(u32::MAX)), None);
    assert_eq!(g.parent_of(RevId(99)), None);
    assert_eq!(g.children_of(RevId(99)), &[]);
}

#[test]
fn is_ancestor_returns_false_for_unknown_ids() {
    let mut g: UndoGraph<u32> = UndoGraph::new(0);
    let a = g.commit(RevId::root(), 1);
    assert!(!g.is_ancestor(RevId(50), a));
    assert!(!g.is_ancestor(a, RevId(50)));
    assert!(!g.is_ancestor(RevId(50), RevId(60)));
}

#[test]
fn monotonicity_stress_one_thousand_commits() {
    let mut g: UndoGraph<u32> = UndoGraph::new(0);
    let mut prev = RevId::root();
    let mut ids = Vec::with_capacity(1000);
    for i in 1..=1000u32 {
        let r = g.commit(prev, i);
        ids.push(r);
        prev = r;
    }
    assert_eq!(g.len(), 1001);

    assert_eq!(g.checkout(RevId::root()), Some(&0));
    for (i, r) in ids.iter().enumerate() {
        assert_eq!(g.checkout(*r), Some(&((i as u32) + 1)));
    }

    for (i, r) in ids.iter().enumerate() {
        assert_eq!(*r, RevId((i as u32) + 1));
    }

    assert!(g.is_ancestor(RevId::root(), *ids.last().expect("non-empty in test")));
}

#[test]
fn commit_with_stale_parent_does_not_panic() {
    let mut g: UndoGraph<u32> = UndoGraph::new(0);
    let r = g.commit(RevId(99), 42);
    assert_eq!(r, RevId(1));
    assert_eq!(g.checkout(r), Some(&42));
    assert_eq!(g.parent_of(r), Some(RevId::root()));
    assert_eq!(g.children_of(RevId::root()), &[r]);
}

#[test]
fn revid_display_is_human_readable() {
    assert_eq!(RevId(0).to_display_string(), "r0");
    assert_eq!(RevId(42).to_display_string(), "r42");
}

#[test]
fn deep_branching_topology() {
    let mut g: UndoGraph<&str> = UndoGraph::new("root");
    let a = g.commit(RevId::root(), "A");
    let b = g.commit(a, "B");
    let c = g.commit(a, "C");
    let d = g.commit(b, "D");
    let e = g.commit(b, "E");
    let f = g.commit(c, "F");

    assert_eq!(g.parent_of(d), Some(b));
    assert_eq!(g.parent_of(e), Some(b));
    assert_eq!(g.children_of(b), &[d, e]);

    assert_eq!(g.parent_of(f), Some(c));
    assert_eq!(g.children_of(c), &[f]);

    for &leaf in &[d, e, f] {
        assert!(g.is_ancestor(RevId::root(), leaf));
        assert!(g.is_ancestor(a, leaf));
    }

    assert!(g.is_ancestor(b, d));
    assert!(g.is_ancestor(b, e));
    assert!(!g.is_ancestor(b, f));

    assert!(g.is_ancestor(c, f));
    assert!(!g.is_ancestor(c, d));
    assert!(!g.is_ancestor(c, e));
}

#[test]
fn len_grows_strictly_per_commit() {
    let mut g: UndoGraph<u32> = UndoGraph::new(0);
    let start = g.len();
    for i in 0..50 {
        let before = g.len();
        g.commit(RevId(i), i);
        assert_eq!(g.len(), before + 1);
    }
    assert_eq!(g.len(), start + 50);
}

#[test]
fn ancestry_is_stable_after_more_commits() {
    let mut g: UndoGraph<u32> = UndoGraph::new(0);
    let a = g.commit(RevId::root(), 1);
    let b = g.commit(a, 2);
    assert!(g.is_ancestor(a, b));
    let _c = g.commit(RevId::root(), 3);
    let _d = g.commit(b, 4);
    assert!(g.is_ancestor(a, b));
    assert!(!g.is_ancestor(b, a));
    assert!(!g.is_empty());
    assert_eq!(b.as_u32(), 2);
}

#[test]
fn unknown_revisions_have_no_parent_or_children() {
    let mut g = UndoGraph::new(0u32);
    let a = g.commit(RevId::root(), 1);
    assert_eq!(g.parent_of(a), Some(RevId::root()));
    assert_eq!(g.parent_of(RevId(99)), None);
    assert!(g.children_of(RevId(99)).is_empty());
    assert!(!g.is_ancestor(RevId(99), a));
    assert!(!g.is_ancestor(a, RevId(99)));
}
