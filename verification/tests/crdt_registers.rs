use paint_type::crdt::{transparent, CrdtTile, Dot, PeerId, TileMergeError, VPixel, TILE_PIXEL_COUNT};

fn p(n: u64) -> PeerId {
    PeerId(n)
}

#[test]
fn later_lamport_wins() {
    let a = VPixel::write(1, p(1), [10, 0, 0, 0]);
    let b = VPixel::write(2, p(1), [20, 0, 0, 0]);
    assert_eq!(a.merge(b).value, [20, 0, 0, 0]);
    assert_eq!(b.merge(a).value, [20, 0, 0, 0]);
}

#[test]
fn equal_lamport_breaks_by_peer_then_value() {
    let a = VPixel::write(5, p(1), [10, 0, 0, 0]);
    let b = VPixel::write(5, p(2), [20, 0, 0, 0]);
    assert_eq!(a.merge(b), b);
    assert_eq!(b.merge(a), b);
}

#[test]
fn merge_is_idempotent() {
    let a = VPixel::write(3, p(7), [1, 2, 3, 4]);
    assert_eq!(a.merge(a), a);
}

#[test]
fn blank_is_dominated_by_any_write() {
    let w = VPixel::write(1, p(1), [1, 1, 1, 1]);
    assert_eq!(VPixel::blank().merge(w), w);
    assert_eq!(w.merge(VPixel::blank()), w);
}

#[test]
fn tile_pointwise_merge_converges() {
    let mut t1 = CrdtTile::blank((0, 0));
    let mut t2 = CrdtTile::blank((0, 0));
    t1.apply(0, VPixel::write(1, p(1), [9, 0, 0, 0])).unwrap();
    t2.apply(0, VPixel::write(2, p(2), [3, 0, 0, 0])).unwrap();
    t2.apply(5, VPixel::write(1, p(2), [4, 0, 0, 0])).unwrap();

    let a = t1.merged(&t2);
    let b = t2.merged(&t1);
    assert_eq!(a, b);
    assert_eq!(a.value(0).unwrap(), [3, 0, 0, 0]);
    assert_eq!(a.value(5).unwrap(), [4, 0, 0, 0]);
}

#[test]
fn merge_rejects_coord_mismatch() {
    let mut t1 = CrdtTile::blank((0, 0));
    let t2 = CrdtTile::blank((1, 0));
    assert_eq!(t1.merge(&t2), Err(TileMergeError::CoordMismatch));
}

#[test]
fn apply_rejects_out_of_range() {
    let mut t = CrdtTile::blank((0, 0));
    assert_eq!(
        t.apply(TILE_PIXEL_COUNT, VPixel::write(1, p(1), [1, 1, 1, 1])),
        Err(TileMergeError::IndexOutOfRange)
    );
}

#[test]
fn equal_lamport_and_peer_breaks_by_value() {
    let a = VPixel::write(5, p(3), [10, 0, 0, 0]);
    let b = VPixel::write(5, p(3), [20, 0, 0, 0]);
    assert_eq!(a.merge(b), b);
    assert_eq!(b.merge(a), b);
}

#[test]
fn merge_is_associative_on_three_writes() {
    let a = VPixel::write(4, p(1), [1, 0, 0, 0]);
    let b = VPixel::write(4, p(2), [2, 0, 0, 0]);
    let c = VPixel::write(3, p(9), [3, 0, 0, 0]);
    assert_eq!(a.merge(b).merge(c), a.merge(b.merge(c)));
    assert_eq!(a.merge(b).merge(c), b);
}

#[test]
fn blank_tile_reads_transparent_and_has_no_painted_cells() {
    let t = CrdtTile::blank((2, -3));
    assert_eq!(t.grid_coord(), (2, -3));
    assert_eq!(t.value(17), Ok(transparent()));
    assert_eq!(t.cell(17), Ok(VPixel::blank()));
    assert_eq!(VPixel::blank().dot, Dot::bottom());
    assert!(t.painted_cells().is_empty());
    assert_eq!(t.value(TILE_PIXEL_COUNT), Err(TileMergeError::IndexOutOfRange));
}

#[test]
fn painted_cells_lists_written_cells_in_order() {
    let mut t = CrdtTile::blank((0, 0));
    t.apply(9, VPixel::write(1, p(1), [9, 9, 9, 9])).unwrap();
    t.apply(2, VPixel::write(1, p(1), [2, 2, 2, 2])).unwrap();
    assert_eq!(t.painted_cells(), vec![(2, [2, 2, 2, 2]), (9, [9, 9, 9, 9])]);
}

#[test]
fn apply_is_idempotent_and_order_free() {
    let w1 = VPixel::write(2, p(1), [5, 0, 0, 0]);
    let w2 = VPixel::write(3, p(2), [6, 0, 0, 0]);
    let mut t1 = CrdtTile::blank((0, 0));
    t1.apply(1, w1).unwrap();
    t1.apply(1, w2).unwrap();
    t1.apply(1, w2).unwrap();
    let mut t2 = CrdtTile::blank((0, 0));
    t2.apply(1, w2).unwrap();
    t2.apply(1, w1).unwrap();
    assert_eq!(t1, t2);
    assert_eq!(t1.value(1), Ok([6, 0, 0, 0]));
}

#[test]
fn tile_merge_is_idempotent() {
    let mut t = CrdtTile::blank((1, 1));
    t.apply(3, VPixel::write(1, p(4), [1, 2, 3, 4])).unwrap();
    let copy = t.merged(&t);
    assert_eq!(copy, t);
}
