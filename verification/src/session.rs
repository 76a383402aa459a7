//! One peer's view of a shared collaborative canvas.
//!
//! A `Session` holds the peer's id and Lamport clock, its replica of the
//! canvas (CRDT tiles in a map keyed by coordinate), the permission
//! table that gates every mutating action, and a count of applied layer
//! mutations. Local edits are gated on this peer's capabilities; remote
//! operations are gated on their originator's. The replica is updated by
//! the CRDT join, so the order and multiplicity of delivery do not matter.

use vstd::prelude::*;
use crate::crdt::{
    join, spec_blank, spec_bottom, CrdtTile, Dot, PeerId, Rgba, TileMergeError, VPixel,
    TILE_PIXEL_COUNT,
};
use crate::permission::{Capability, CapabilityError, PermissionTable};
use std::collections::BTreeMap;
use vstd::std_specs::iter::IteratorSpec;

pub mod sim;
mod order;

verus! {

broadcast use {vstd::std_specs::btree::group_btree_axioms, vstd::laws_cmp::group_laws_cmp};

/// A replicated mutation, broadcast to every peer.
#[derive(Clone, Copy, Debug, PartialEq, Eq)]
pub enum Op {
    /// Write a pixel of a tile; `write.dot.peer` is the claimed originator.
    Paint { coord: (i32, i32), index: usize, write: VPixel },
    /// A layer-stack mutation, attributed to `by`, with sequence number `seq`.
    LayerMutate { by: PeerId, seq: u64 },
}

/// The peer an operation claims to come from.
pub open spec fn op_originator(op: Op) -> PeerId {
    match op {
        Op::Paint { write, .. } => write.dot.peer,
        Op::LayerMutate { by, .. } => by,
    }
}

/// The capability an operation needs.
pub open spec fn op_capability(op: Op) -> Capability {
    match op {
        Op::Paint { .. } => Capability::Paint,
        Op::LayerMutate { .. } => Capability::LayerMutate,
    }
}

impl Op {
    /// The peer that originated this op.
    pub fn originator(&self) -> (p: PeerId)
        ensures
            p == op_originator(*self),
    {
        match self {
            Op::Paint { write, .. } => write.dot.peer,
            Op::LayerMutate { by, .. } => *by,
        }
    }

    /// The capability required to apply this op.
    pub fn required_capability(&self) -> (c: Capability)
        ensures
            c == op_capability(*self),
    {
        match self {
            Op::Paint { .. } => Capability::Paint,
            Op::LayerMutate { .. } => Capability::LayerMutate,
        }
    }
}

/// A message transport between the peers of a session.
pub trait Transport {
    /// Every op broadcast through this endpoint, oldest first.
    spec fn sent(&self) -> Seq<Op>;

    /// Every op taken from this endpoint's inbox, in the order taken.
    spec fn received(&self) -> Seq<Op>;

    /// Broadcast `op` to all other peers.
    fn broadcast(&mut self, op: Op)
        ensures
            final(self).sent() == old(self).sent().push(op),
            final(self).received() == old(self).received(),
    ;

    /// Take the ops that have arrived since the last call.
    fn drain_inbox(&mut self) -> (v: Vec<Op>)
        ensures
            final(self).received() == old(self).received() + v@,
            final(self).sent() == old(self).sent(),
    ;
}

/// What went wrong applying a mutation.
#[derive(Clone, Copy, Debug, PartialEq, Eq)]
pub enum SessionError {
    /// The acting peer lacked the required capability.
    Denied(CapabilityError),
    /// Pixel index out of range.
    Tile(TileMergeError),
}

//==============================================================================
// The replica model
//==============================================================================

/// Tile coordinates ordered by `x` then `y`.
pub open spec fn coord_lt(a: (i32, i32), b: (i32, i32)) -> bool {
    a.0 < b.0 || (a.0 == b.0 && a.1 < b.1)
}

/// One replica entry: a tile coordinate and its cells.
pub type Entry = ((i32, i32), Seq<VPixel>);

/// Coordinates strictly increasing.
pub open spec fn sorted_entries(r: Seq<Entry>) -> bool {
    forall|i: int, j: int| 0 <= i < j < r.len() ==> coord_lt(#[trigger] r[i].0, #[trigger] r[j].0)
}

/// The cells stored for coordinate `c`, if any.
pub open spec fn lookup(r: Seq<Entry>, c: (i32, i32)) -> Option<Seq<VPixel>>
    decreases r.len(),
{
    if r.len() == 0 {
        None
    } else if r[0].0 == c {
        Some(r[0].1)
    } else {
        lookup(r.drop_first(), c)
    }
}

/// The replica as a map from coordinate to cells.
pub open spec fn replica_map(r: Seq<Entry>) -> Map<(i32, i32), Seq<VPixel>> {
    Map::new(|c: (i32, i32)| lookup(r, c) is Some, |c: (i32, i32)| lookup(r, c)->0)
}

/// The cells of a blank tile.
pub open spec fn blank_cells() -> Seq<VPixel> {
    Seq::new(TILE_PIXEL_COUNT as nat, |i: int| spec_blank())
}

/// The cells at `c` in `m`, a blank tile where there are none.
pub open spec fn cells_or_blank(m: Map<(i32, i32), Seq<VPixel>>, c: (i32, i32)) -> Seq<VPixel> {
    if m.contains_key(c) {
        m[c]
    } else {
        blank_cells()
    }
}

/// The replica with a tile present at `c` (a blank one if there was none).
pub open spec fn with_tile(m: Map<(i32, i32), Seq<VPixel>>, c: (i32, i32)) -> Map<
    (i32, i32),
    Seq<VPixel>,
> {
    m.insert(c, cells_or_blank(m, c))
}

/// The replica after joining `w` into cell `index` of the tile at `c`.
pub open spec fn paint_map(m: Map<(i32, i32), Seq<VPixel>>, c: (i32, i32), index: int, w: VPixel) -> Map<
    (i32, i32),
    Seq<VPixel>,
> {
    let cells = cells_or_blank(m, c);
    m.insert(c, cells.update(index, join(cells[index], w)))
}

/// No dot in `m` is later than `clock`.
pub open spec fn dots_within(m: Map<(i32, i32), Seq<VPixel>>, clock: u64) -> bool {
    forall|c: (i32, i32), i: int|
        #![trigger m[c][i]]
        m.contains_key(c) && 0 <= i < m[c].len() ==> m[c][i].dot.lamport <= clock
}

/// Painting a write no later than `clock` keeps every dot within it, and
/// so does adding a blank tile.
proof fn lemma_paint_within(m: Map<(i32, i32), Seq<VPixel>>, clock: u64, c: (i32, i32), index: int, w: VPixel)
    requires
        dots_within(m, clock),
        w.dot.lamport <= clock,
    ensures
        0 <= index < cells_or_blank(m, c).len() ==> dots_within(paint_map(m, c, index, w), clock),
        dots_within(with_tile(m, c), clock),
{
    let cells = cells_or_blank(m, c);
    if !m.contains_key(c) {
        assert forall|i: int| 0 <= i < cells.len() implies #[trigger] cells[i].dot.lamport <= clock by {
            assert(cells[i] == spec_blank());
        }
    } else {
        assert forall|i: int| 0 <= i < cells.len() implies #[trigger] cells[i].dot.lamport <= clock by {
            assert(m[c][i].dot.lamport <= clock);
        }
    }
    if 0 <= index < cells.len() {
        let p = paint_map(m, c, index, w);
        assert forall|d: (i32, i32), i: int| p.contains_key(d) && 0 <= i < p[d].len() implies #[trigger] p[d][i].dot.lamport
            <= clock by {
            if d == c {
                if i == index {
                    assert(join(cells[index], w) == cells[index] || join(cells[index], w) == w);
                } else {
                    assert(p[d][i] == cells[i]);
                }
            } else {
                assert(p[d][i] == m[d][i]);
            }
        }
    }
    let t = with_tile(m, c);
    assert forall|d: (i32, i32), i: int| t.contains_key(d) && 0 <= i < t[d].len() implies #[trigger] t[d][i].dot.lamport
        <= clock by {
        if d == c {
            assert(t[d][i] == cells[i]);
        } else {
            assert(t[d][i] == m[d][i]);
        }
    }
}

/// Every dot within `a` is within any later clock `b`.
proof fn lemma_within_mono(m: Map<(i32, i32), Seq<VPixel>>, a: u64, b: u64)
    requires
        dots_within(m, a),
        a <= b,
    ensures
        dots_within(m, b),
{
}

/// The abstract state of a session.
pub struct SessionModel {
    pub peer: PeerId,
    pub lamport: u64,
    pub replica: Map<(i32, i32), Seq<VPixel>>,
    pub grants: Map<u64, crate::permission::CapabilitySet>,
    pub layer_seq: u64,
}

/// The state and outcome of receiving `op` in state `s`.
pub open spec fn receive_model(s: SessionModel, op: Op) -> (SessionModel, Result<(), SessionError>) {
    if !crate::permission::caps_in(s.grants, op_originator(op), op_capability(op)) {
        (
            s,
            Err(
                SessionError::Denied(
                    CapabilityError { peer: op_originator(op), required: op_capability(op) },
                ),
            ),
        )
    } else {
        match op {
            Op::Paint { coord, index, write } => {
                let lamport = if write.dot.lamport > s.lamport {
                    write.dot.lamport
                } else {
                    s.lamport
                };
                if index < TILE_PIXEL_COUNT {
                    (
                        SessionModel {
                            lamport,
                            replica: paint_map(s.replica, coord, index as int, write),
                            ..s
                        },
                        Ok(()),
                    )
                } else {
                    (
                        SessionModel { lamport, replica: with_tile(s.replica, coord), ..s },
                        Err(SessionError::Tile(TileMergeError::IndexOutOfRange)),
                    )
                }
            },
            Op::LayerMutate { seq, .. } => {
                let layer_seq = if seq > s.layer_seq {
                    seq
                } else {
                    s.layer_seq
                };
                (SessionModel { layer_seq, ..s }, Ok(()))
            },
        }
    }
}

/// The state after receiving `ops` in order, and the ops that were
/// rejected, each with its error, in order.
pub open spec fn receive_all_model(s: SessionModel, ops: Seq<Op>) -> (SessionModel, Seq<(Op, SessionError)>)
    decreases ops.len(),
{
    if ops.len() == 0 {
        (s, Seq::empty())
    } else {
        let (s1, rej) = receive_all_model(s, ops.drop_last());
        let op = ops.last();
        let (s2, r) = receive_model(s1, op);
        match r {
            Ok(_) => (s2, rej),
            Err(e) => (s2, rej.push((op, e))),
        }
    }
}

//==============================================================================
// Entry lemmas
//==============================================================================

proof fn lemma_lookup_in(r: Seq<Entry>, c: (i32, i32))
    ensures
        lookup(r, c) is Some <==> exists|i: int| 0 <= i < r.len() && r[i].0 == c,
        sorted_entries(r) ==> forall|i: int| 0 <= i < r.len() && r[i].0 == c ==> lookup(r, c) == Some(r[i].1),
    decreases r.len(),
{
    if r.len() > 0 {
        let t = r.drop_first();
        lemma_lookup_in(t, c);
        assert forall|i: int| 0 <= i < t.len() implies #[trigger] t[i] == r[i + 1] by {}
        if r[0].0 != c {
            if exists|i: int| 0 <= i < r.len() && r[i].0 == c {
                let i = choose|i: int| 0 <= i < r.len() && r[i].0 == c;
                assert(t[i - 1].0 == c);
            }
        }
        if sorted_entries(r) {
            assert(sorted_entries(t)) by {
                assert forall|i: int, j: int| 0 <= i < j < t.len() implies coord_lt(
                    #[trigger] t[i].0,
                    #[trigger] t[j].0,
                ) by {
                    assert(r[i + 1] == t[i] && r[j + 1] == t[j]);
                }
            }
            assert forall|i: int| 0 <= i < r.len() && r[i].0 == c implies lookup(r, c) == Some(
                r[i].1,
            ) by {
                if i > 0 && r[0].0 == c {
                    assert(coord_lt(r[0].0, r[i].0));
                }
                if i > 0 {
                    assert(t[i - 1] == r[i]);
                }
            }
        }
    }
}

//==============================================================================
// Laws of the replica
//==============================================================================

/// Receiving two paint writes in either order gives the same replica.
pub proof fn law_paint_order_independent(
    m: Map<(i32, i32), Seq<VPixel>>,
    c1: (i32, i32),
    i1: int,
    w1: VPixel,
    c2: (i32, i32),
    i2: int,
    w2: VPixel,
)
    requires
        forall|c: (i32, i32)| #[trigger] m.contains_key(c) ==> m[c].len() == TILE_PIXEL_COUNT,
        0 <= i1 < TILE_PIXEL_COUNT,
        0 <= i2 < TILE_PIXEL_COUNT,
    ensures
        paint_map(paint_map(m, c1, i1, w1), c2, i2, w2) == paint_map(
            paint_map(m, c2, i2, w2),
            c1,
            i1,
            w1,
        ),
{
    let a = paint_map(paint_map(m, c1, i1, w1), c2, i2, w2);
    let b = paint_map(paint_map(m, c2, i2, w2), c1, i1, w1);
    if c1 == c2 {
        let cells = cells_or_blank(m, c1);
        crate::crdt::law_apply_commutes(cells, i1, w1, i2, w2);
        assert(a[c1] =~= b[c1]);
    }
    assert(a =~= b);
}

/// Receiving the same paint write twice leaves the replica as receiving it
/// once.
pub proof fn law_paint_idempotent(m: Map<(i32, i32), Seq<VPixel>>, c: (i32, i32), i: int, w: VPixel)
    requires
        forall|d: (i32, i32)| #[trigger] m.contains_key(d) ==> m[d].len() == TILE_PIXEL_COUNT,
        0 <= i < TILE_PIXEL_COUNT,
    ensures
        paint_map(paint_map(m, c, i, w), c, i, w) == paint_map(m, c, i, w),
{
    let cells = cells_or_blank(m, c);
    crate::crdt::law_apply_idempotent(cells, i, w);
    assert(paint_map(paint_map(m, c, i, w), c, i, w) =~= paint_map(m, c, i, w));
}

//==============================================================================
// Digest
//==============================================================================

/// The painted cells of the tile at `c`, as digest records, in index order.
pub open spec fn tile_digest(c: (i32, i32), cells: Seq<VPixel>) -> Seq<((i32, i32), usize, Dot, Rgba)>
    decreases cells.len(),
{
    if cells.len() == 0 {
        Seq::empty()
    } else {
        let i = cells.len() - 1;
        let rest = tile_digest(c, cells.drop_last());
        if cells[i].dot == spec_bottom() {
            rest
        } else {
            rest.push((c, i as usize, cells[i].dot, cells[i].value))
        }
    }
}

/// The digest records of all entries, in entry order.
pub open spec fn entries_digest(r: Seq<Entry>) -> Seq<((i32, i32), usize, Dot, Rgba)>
    decreases r.len(),
{
    if r.len() == 0 {
        Seq::empty()
    } else {
        entries_digest(r.drop_last()) + tile_digest(r.last().0, r.last().1)
    }
}

/// The digest of a replica: its painted cells as `(coord, index, dot,
/// value)`, by increasing coordinate, then index.
pub open spec fn replica_digest(m: Map<(i32, i32), Seq<VPixel>>) -> Seq<((i32, i32), usize, Dot, Rgba)> {
    entries_digest(choose|r: Seq<Entry>| sorted_entries(r) && replica_map(r) == m)
}

proof fn lemma_sorted_tail(r: Seq<Entry>)
    requires
        sorted_entries(r),
        r.len() > 0,
    ensures
        sorted_entries(r.drop_first()),
        replica_map(r.drop_first()) == replica_map(r).remove(r[0].0),
{
    let t = r.drop_first();
    assert forall|i: int, j: int| 0 <= i < j < t.len() implies coord_lt(#[trigger] t[i].0, #[trigger] t[j].0) by {
        assert(t[i] == r[i + 1] && t[j] == r[j + 1]);
    }
    assert forall|d: (i32, i32)| #[trigger] replica_map(t).contains_key(d) == replica_map(r).remove(
        r[0].0,
    ).contains_key(d) by {
        lemma_lookup_in(t, d);
        if d == r[0].0 && lookup(t, d) is Some {
            let k = choose|k: int| 0 <= k < t.len() && t[k].0 == d;
            assert(t[k] == r[k + 1]);
            assert(coord_lt(r[0].0, r[k + 1].0));
        }
    }
    assert(replica_map(t) =~= replica_map(r).remove(r[0].0));
}

proof fn lemma_sorted_unique(r1: Seq<Entry>, r2: Seq<Entry>)
    requires
        sorted_entries(r1),
        sorted_entries(r2),
        replica_map(r1) == replica_map(r2),
    ensures
        r1 == r2,
    decreases r1.len(),
{
    if r1.len() == 0 {
        if r2.len() > 0 {
            assert(replica_map(r2).contains_key(r2[0].0));
            assert(!replica_map(r1).contains_key(r2[0].0));
        }
        assert(r1 =~= r2);
    } else if r2.len() == 0 {
        assert(replica_map(r1).contains_key(r1[0].0));
    } else {
        let k1 = r1[0].0;
        let k2 = r2[0].0;
        assert(replica_map(r1).contains_key(k1));
        assert(replica_map(r2).contains_key(k2));
        lemma_lookup_in(r2, k1);
        lemma_lookup_in(r1, k2);
        if k1 != k2 {
            let j = choose|j: int| 0 <= j < r2.len() && r2[j].0 == k1;
            let j2 = choose|j: int| 0 <= j < r1.len() && r1[j].0 == k2;
            assert(coord_lt(r2[0].0, r2[j].0));
            assert(coord_lt(r1[0].0, r1[j2].0));
        }
        assert(r1[0].1 == replica_map(r1)[k1]);
        assert(r2[0].1 == replica_map(r2)[k2]);
        lemma_sorted_tail(r1);
        lemma_sorted_tail(r2);
        lemma_sorted_unique(r1.drop_first(), r2.drop_first());
        assert forall|i: int| 0 <= i < r1.len() implies r1[i] == r2[i] by {
            if i > 0 {
                assert(r1[i] == r1.drop_first()[i - 1]);
                assert(r2[i] == r2.drop_first()[i - 1]);
            }
        }
        assert(r1 =~= r2);
    }
}

proof fn lemma_digest_of_sorted(r: Seq<Entry>)
    requires
        sorted_entries(r),
    ensures
        replica_digest(replica_map(r)) == entries_digest(r),
{
    let r2 = choose|r2: Seq<Entry>| sorted_entries(r2) && replica_map(r2) == replica_map(r);
    assert(sorted_entries(r) && replica_map(r) == replica_map(r));
    lemma_sorted_unique(r, r2);
}

/// The digest is a function of the replica alone: two sessions whose
/// replicas hold the same tiles have the same digest, whatever the order
/// in which their writes arrived.
pub proof fn law_digest_determined_by_replica(r1: Seq<Entry>, r2: Seq<Entry>)
    requires
        sorted_entries(r1),
        sorted_entries(r2),
        replica_map(r1) == replica_map(r2),
    ensures
        entries_digest(r1) == entries_digest(r2),
{
    lemma_sorted_unique(r1, r2);
}

//==============================================================================
// Sessions
//==============================================================================

/// One peer's session state.
pub struct Session {
    peer: PeerId,
    lamport: u64,
    tiles: BTreeMap<(i32, i32), CrdtTile>,
    perms: PermissionTable,
    layer_seq: u64,
}

impl View for Session {
    type V = SessionModel;

    closed spec fn view(&self) -> SessionModel {
        SessionModel {
            peer: self.peer,
            lamport: self.lamport,
            replica: self.tiles@.map_values(|t: CrdtTile| t.cells()),
            grants: self.perms.grants(),
            layer_seq: self.layer_seq,
        }
    }
}

impl Session {
    /// Every tile is full and filed under its own coordinate.
    closed spec fn tiles_ok(&self) -> bool {
        forall|c: (i32, i32)|
            #[trigger] self.tiles@.contains_key(c) ==> self.tiles@[c].cells().len() == TILE_PIXEL_COUNT
                && self.tiles@[c].coord_of() == c
    }

    /// The tiles are sorted and full, and the Lamport clock is at least
    /// every dot in the replica.
    pub closed spec fn wf(&self) -> bool {
        &&& self.tiles_ok()
        &&& dots_within(self@.replica, self.lamport)
    }

    /// What well-formedness promises of the model: every tile is full and
    /// no dot in the replica is later than the clock.
    pub proof fn lemma_wf(&self)
        requires
            self.wf(),
        ensures
            full_replica(self@.replica),
            dots_within(self@.replica, self@.lamport),
    {
    }

    /// Start a session as `peer` with the given permission table.
    pub fn new(peer: PeerId, perms: PermissionTable) -> (s: Session)
        ensures
            s.wf(),
            s@ == (SessionModel {
                peer,
                lamport: 0,
                replica: Map::empty(),
                grants: perms.grants(),
                layer_seq: 0,
            }),
    {
        let s = Session { peer, lamport: 0, tiles: BTreeMap::new(), perms, layer_seq: 0 };
        assert(s@.replica =~= Map::<(i32, i32), Seq<VPixel>>::empty());
        s
    }

    /// This peer's id.
    pub fn peer(&self) -> (p: PeerId)
        ensures
            p == self@.peer,
    {
        self.peer
    }

    /// Mutable access to the permission table (host-side administration).
    pub fn permissions_mut(&mut self) -> (t: &mut PermissionTable)
        ensures
            t.grants() == old(self)@.grants,
            final(self)@ == (SessionModel { grants: final(t).grants(), ..old(self)@ }),
            final(self).wf() == old(self).wf(),
    {
        &mut self.perms
    }

    /// Read a resolved pixel value, gated on this peer's `Read`.
    pub fn read_pixel(&self, coord: (i32, i32), index: usize) -> (r: Result<Rgba, SessionError>)
        requires
            self.wf(),
        ensures
            !crate::permission::caps_in(self@.grants, self@.peer, Capability::Read) ==> r == Err::<
                Rgba,
                SessionError,
            >(SessionError::Denied(CapabilityError { peer: self@.peer, required: Capability::Read })),
            crate::permission::caps_in(self@.grants, self@.peer, Capability::Read) ==> {
                if !self@.replica.contains_key(coord) {
                    r == Ok::<Rgba, SessionError>([0u16, 0u16, 0u16, 0u16])
                } else if index < TILE_PIXEL_COUNT {
                    r == Ok::<Rgba, SessionError>(self@.replica[coord][index as int].value)
                } else {
                    r == Err::<Rgba, SessionError>(SessionError::Tile(TileMergeError::IndexOutOfRange))
                }
            },
    {
        match self.perms.check(self.peer, Capability::Read) {
            Ok(_) => {},
            Err(e) => return Err(SessionError::Denied(e)),
        }
        match self.tiles.get(&coord) {
            Some(tile) => {
                match tile.value(index) {
                    Ok(v) => Ok(v),
                    Err(e) => Err(SessionError::Tile(e)),
                }
            },
            None => Ok(crate::crdt::transparent()),
        }
    }

    /// Join `write` into cell `index` of the tile at `coord`, creating the
    /// tile blank first if needed.
    fn paint_cell(&mut self, coord: (i32, i32), index: usize, write: VPixel) -> (r: Result<(), TileMergeError>)
        requires
            old(self).tiles_ok(),
        ensures
            final(self).tiles_ok(),
            final(self).peer == old(self).peer,
            final(self).lamport == old(self).lamport,
            final(self).perms == old(self).perms,
            final(self).layer_seq == old(self).layer_seq,
            index < TILE_PIXEL_COUNT ==> r == Ok::<(), TileMergeError>(()) && final(self)@.replica
                == paint_map(old(self)@.replica, coord, index as int, write),
            index >= TILE_PIXEL_COUNT ==> r == Err::<(), TileMergeError>(
                TileMergeError::IndexOutOfRange,
            ) && final(self)@.replica == with_tile(old(self)@.replica, coord),
    {
        let ghost m0 = self@.replica;
        let ghost t0 = self.tiles@;
        let mut tile = match self.tiles.remove(&coord) {
            Some(t) => t,
            None => CrdtTile::blank(coord),
        };
        proof {
            if !t0.contains_key(coord) {
                assert(tile.cells() =~= blank_cells());
            }
            assert(tile.cells() == cells_or_blank(m0, coord));
        }
        let res = tile.apply(index, write);
        self.tiles.insert(coord, tile);
        proof {
            if index < TILE_PIXEL_COUNT {
                assert(self@.replica =~= paint_map(m0, coord, index as int, write));
            } else {
                assert(self@.replica =~= with_tile(m0, coord));
            }
        }
        res
    }

    /// A local paint: gated on this peer's `Paint`; stamps a fresh dot,
    /// applies the write locally and broadcasts the op. Refused without
    /// any change, and without broadcasting, if this peer may not paint or
    /// the index is out of range.
    pub fn local_paint<T: Transport>(
        &mut self,
        coord: (i32, i32),
        index: usize,
        value: Rgba,
        transport: &mut T,
    ) -> (r: Result<Op, SessionError>)
        requires
            old(self).wf(),
            crate::permission::caps_in(old(self)@.grants, old(self)@.peer, Capability::Paint) && index
                < TILE_PIXEL_COUNT ==> old(self)@.lamport < u64::MAX,
        ensures
            final(self).wf(),
            !crate::permission::caps_in(old(self)@.grants, old(self)@.peer, Capability::Paint) ==> r
                == Err::<Op, SessionError>(
                SessionError::Denied(
                    CapabilityError { peer: old(self)@.peer, required: Capability::Paint },
                ),
            ) && final(self)@ == old(self)@ && *final(transport) == *old(transport),
            crate::permission::caps_in(old(self)@.grants, old(self)@.peer, Capability::Paint) && index
                >= TILE_PIXEL_COUNT ==> r == Err::<Op, SessionError>(
                SessionError::Tile(TileMergeError::IndexOutOfRange),
            ) && final(self)@ == old(self)@ && *final(transport) == *old(transport),
            crate::permission::caps_in(old(self)@.grants, old(self)@.peer, Capability::Paint) && index
                < TILE_PIXEL_COUNT ==> ({
                let w = VPixel {
                    dot: Dot { lamport: (old(self)@.lamport + 1) as u64, peer: old(self)@.peer },
                    value,
                };
                &&& r == Ok::<Op, SessionError>(Op::Paint { coord, index, write: w })
                &&& final(self)@ == (SessionModel {
                    lamport: w.dot.lamport,
                    replica: paint_map(old(self)@.replica, coord, index as int, w),
                    ..old(self)@
                })
                &&& forall|c: (i32, i32), i: int|
                    old(self)@.replica.contains_key(c) && 0 <= i < old(self)@.replica[c].len()
                        ==> #[trigger] old(self)@.replica[c][i].dot.lamport < w.dot.lamport
                &&& final(transport).sent() == old(transport).sent().push(Op::Paint { coord, index, write: w })
                &&& final(transport).received() == old(transport).received()
            }),
    {
        match self.perms.check(self.peer, Capability::Paint) {
            Ok(_) => {},
            Err(e) => return Err(SessionError::Denied(e)),
        }
        if index >= TILE_PIXEL_COUNT {
            return Err(SessionError::Tile(TileMergeError::IndexOutOfRange));
        }
        proof {
            self.lemma_wf();
        }
        let ghost m0 = self@.replica;
        self.lamport = self.lamport + 1;
        let write = VPixel::write(self.lamport, self.peer, value);
        proof {
            lemma_within_mono(m0, old(self)@.lamport, self.lamport);
            lemma_paint_within(m0, self.lamport, coord, index as int, write);
        }
        match self.paint_cell(coord, index, write) {
            Ok(_) => {},
            Err(e) => return Err(SessionError::Tile(e)),
        }
        let op = Op::Paint { coord, index, write };
        transport.broadcast(op);
        Ok(op)
    }

    /// A local layer mutation: gated on this peer's `LayerMutate`; bumps
    /// the local sequence number and broadcasts the op.
    pub fn local_layer_mutate<T: Transport>(&mut self, transport: &mut T) -> (r: Result<Op, SessionError>)
        requires
            old(self).wf(),
            crate::permission::caps_in(old(self)@.grants, old(self)@.peer, Capability::LayerMutate)
                ==> old(self)@.layer_seq < u64::MAX,
        ensures
            final(self).wf(),
            !crate::permission::caps_in(old(self)@.grants, old(self)@.peer, Capability::LayerMutate)
                ==> r == Err::<Op, SessionError>(
                SessionError::Denied(
                    CapabilityError { peer: old(self)@.peer, required: Capability::LayerMutate },
                ),
            ) && final(self)@ == old(self)@ && *final(transport) == *old(transport),
            crate::permission::caps_in(old(self)@.grants, old(self)@.peer, Capability::LayerMutate)
                ==> r == Ok::<Op, SessionError>(
                Op::LayerMutate { by: old(self)@.peer, seq: (old(self)@.layer_seq + 1) as u64 },
            ) && final(self)@ == (SessionModel {
                layer_seq: (old(self)@.layer_seq + 1) as u64,
                ..old(self)@
            }) && final(transport).sent() == old(transport).sent().push(
                Op::LayerMutate { by: old(self)@.peer, seq: (old(self)@.layer_seq + 1) as u64 },
            ) && final(transport).received() == old(transport).received(),
    {
        match self.perms.check(self.peer, Capability::LayerMutate) {
            Ok(_) => {},
            Err(e) => return Err(SessionError::Denied(e)),
        }
        self.layer_seq = self.layer_seq + 1;
        let op = Op::LayerMutate { by: self.peer, seq: self.layer_seq };
        transport.broadcast(op);
        Ok(op)
    }

    /// Apply a remote op: the originator's capability is checked first;
    /// then the write is joined into the replica (advancing the Lamport
    /// clock past the remote dot) or the layer sequence advanced.
    pub fn receive(&mut self, op: Op) -> (r: Result<(), SessionError>)
        requires
            old(self).wf(),
        ensures
            final(self).wf(),
            (final(self)@, r) == receive_model(old(self)@, op),
    {
        match self.perms.check(op.originator(), op.required_capability()) {
            Ok(_) => {},
            Err(e) => return Err(SessionError::Denied(e)),
        }
        match op {
            Op::Paint { coord, index, write } => {
                proof {
                    self.lemma_wf();
                }
                let ghost m0 = self@.replica;
                if write.dot.lamport > self.lamport {
                    self.lamport = write.dot.lamport;
                }
                proof {
                    lemma_within_mono(m0, old(self)@.lamport, self.lamport);
                    lemma_paint_within(m0, self.lamport, coord, index as int, write);
                }
                match self.paint_cell(coord, index, write) {
                    Ok(_) => Ok(()),
                    Err(e) => Err(SessionError::Tile(e)),
                }
            },
            Op::LayerMutate { seq, .. } => {
                if seq > self.layer_seq {
                    self.layer_seq = seq;
                }
                Ok(())
            },
        }
    }

    /// Apply each op in turn; the ops that were refused come back, each
    /// with its error, in order.
    pub fn receive_all(&mut self, ops: Vec<Op>) -> (rejected: Vec<(Op, SessionError)>)
        requires
            old(self).wf(),
        ensures
            final(self).wf(),
            (final(self)@, rejected@) == receive_all_model(old(self)@, ops@),
    {
        let mut rejected: Vec<(Op, SessionError)> = Vec::new();
        let ghost s0 = self@;
        let mut i: usize = 0;
        while i < ops.len()
            invariant
                i <= ops@.len(),
                self.wf(),
                (self@, rejected@) == receive_all_model(s0, ops@.take(i as int)),
            decreases ops@.len() - i,
        {
            let op = ops[i];
            proof {
                assert(ops@.take(i + 1).drop_last() =~= ops@.take(i as int));
            }
            match self.receive(op) {
                Ok(_) => {},
                Err(e) => rejected.push((op, e)),
            }
            i += 1;
        }
        assert(ops@.take(ops@.len() as int) =~= ops@);
        rejected
    }

    /// Drain the transport's inbox and apply each op; the refused ops come
    /// back with their errors rather than being applied. Exactly the ops
    /// drained are applied, in the order drained.
    pub fn pump<T: Transport>(&mut self, transport: &mut T) -> (rejected: Vec<(Op, SessionError)>)
        requires
            old(self).wf(),
        ensures
            final(self).wf(),
            old(transport).received().is_prefix_of(final(transport).received()),
            (final(self)@, rejected@) == receive_all_model(
                old(self)@,
                final(transport).received().skip(old(transport).received().len() as int),
            ),
            final(transport).sent() == old(transport).sent(),
    {
        let ghost r0 = transport.received();
        let ops = transport.drain_inbox();
        let ghost seen = ops@;
        assert(transport.received().skip(r0.len() as int) =~= seen);
        assert(r0.is_prefix_of(transport.received())) by {
            assert(transport.received().take(r0.len() as int) =~= r0);
        }
        let rejected = self.receive_all(ops);
        rejected
    }

    /// A fingerprint of the painted state: `(coord, index, dot, value)` of
    /// every written cell, by increasing coordinate and index. Two sessions
    /// with the same replica have the same digest.
    pub fn canvas_digest(&self) -> (out: Vec<((i32, i32), usize, Dot, Rgba)>)
        requires
            self.wf(),
        ensures
            out@ == replica_digest(self@.replica),
    {
        let ghost s = vstd::std_specs::btree::spec_btree_map_iter(&self.tiles).remaining();
        let ghost es: Seq<Entry> = s.map_values(|kv: (&(i32, i32), &CrdtTile)| (*kv.0, kv.1.cells()));
        let bottom = Dot::bottom();
        let mut out: Vec<((i32, i32), usize, Dot, Rgba)> = Vec::new();
        for kv in it: self.tiles.iter()
            invariant
                it.seq() == s,
                es == s.map_values(|kv: (&(i32, i32), &CrdtTile)| (*kv.0, kv.1.cells())),
                self.tiles_ok(),
                forall|i: int|
                    0 <= i < s.len() ==> self.tiles@.contains_key(*s[i].0) && self.tiles@[*s[i].0] == *(
                    #[trigger] s[i]).1,
                bottom == spec_bottom(),
                out@ == entries_digest(es.take(it.index() as int)),
        {
            let (coord_ref, tile) = kv;
            let coord = *coord_ref;
            let ghost t = it.index();
            let ghost before = out@;
            let ghost cells = tile.cells();
            proof {
                assert(kv == s[t]);
                assert(es[t] == (coord, cells));
                assert(cells.len() == TILE_PIXEL_COUNT);
            }
            let mut index: usize = 0;
            while index < TILE_PIXEL_COUNT
                invariant
                    index <= TILE_PIXEL_COUNT,
                    cells == tile.cells(),
                    cells.len() == TILE_PIXEL_COUNT,
                    bottom == spec_bottom(),
                    out@ == before + tile_digest(coord, cells.take(index as int)),
                decreases TILE_PIXEL_COUNT - index,
            {
                proof {
                    assert(cells.take(index + 1).drop_last() =~= cells.take(index as int));
                }
                match tile.cell(index) {
                    Ok(cell) => {
                        if cell.dot != bottom {
                            out.push((coord, index, cell.dot, cell.value));
                        }
                    },
                    Err(_) => {},
                }
                index += 1;
            }
            proof {
                assert(cells.take(TILE_PIXEL_COUNT as int) =~= cells);
                assert(es.take(t + 1).drop_last() =~= es.take(t as int));
                assert(es.take(t + 1).last() == (coord, cells));
            }
        }
        proof {
            assert(es.take(es.len() as int) =~= es);
            assert(vstd::std_specs::btree::increasing_seq(s.map_values(|kv: (&(i32, i32), &CrdtTile)| *kv.0)));
            self.lemma_entries_of(s, es);
            lemma_digest_of_sorted(es);
        }
        out
    }

    /// The tile map's entries, in the order it yields them, are sorted and
    /// describe the replica.
    proof fn lemma_entries_of(&self, s: Seq<(&(i32, i32), &CrdtTile)>, es: Seq<Entry>)
        requires
            s == vstd::std_specs::btree::spec_btree_map_iter(&self.tiles).remaining(),
            es == s.map_values(|kv: (&(i32, i32), &CrdtTile)| (*kv.0, kv.1.cells())),
            vstd::std_specs::btree::increasing_seq(s.map_values(|kv: (&(i32, i32), &CrdtTile)| *kv.0)),
        ensures
            sorted_entries(es),
            replica_map(es) == self@.replica,
    {
        let ks = s.map_values(|kv: (&(i32, i32), &CrdtTile)| *kv.0);
        order::lemma_increasing_coords(ks);
        assert forall|i: int, j: int| 0 <= i < j < es.len() implies coord_lt(#[trigger] es[i].0, #[trigger] es[j].0) by {
            assert(ks[i] == es[i].0 && ks[j] == es[j].0);
        }
        let m = self@.replica;
        assert forall|c: (i32, i32)| #[trigger] replica_map(es).contains_key(c) == m.contains_key(c)
            && (m.contains_key(c) ==> replica_map(es)[c] == m[c]) by {
            lemma_lookup_in(es, c);
            if m.contains_key(c) {
                assert(s.contains((&c, &self.tiles@[c])));
                let i = choose|i: int| 0 <= i < s.len() && s[i] == (&c, &self.tiles@[c]);
                assert(es[i] == (c, self.tiles@[c].cells()));
            }
            if lookup(es, c) is Some {
                let i = choose|i: int| 0 <= i < es.len() && es[i].0 == c;
                assert(self.tiles@.contains_key(*s[i].0));
            }
        }
        assert(replica_map(es) =~= m);
    }
}

/// Every tile of the replica is full.
pub open spec fn full_replica(m: Map<(i32, i32), Seq<VPixel>>) -> bool {
    forall|c: (i32, i32)| #[trigger] m.contains_key(c) ==> m[c].len() == TILE_PIXEL_COUNT
}

/// Delivery order does not matter: receiving two ops in either order leads
/// to the same session state.
pub proof fn law_receive_commutes(s: SessionModel, a: Op, b: Op)
    requires
        full_replica(s.replica),
    ensures
        receive_model(receive_model(s, a).0, b).0 == receive_model(receive_model(s, b).0, a).0,
{
    let ab = receive_model(receive_model(s, a).0, b).0;
    let ba = receive_model(receive_model(s, b).0, a).0;
    match (a, b) {
        (Op::Paint { coord: c1, index: i1, write: w1 }, Op::Paint { coord: c2, index: i2, write: w2 }) => {
            if i1 < TILE_PIXEL_COUNT && i2 < TILE_PIXEL_COUNT {
                law_paint_order_independent(s.replica, c1, i1 as int, w1, c2, i2 as int, w2);
            }
            assert(ab.replica =~= ba.replica);
        },
        _ => {},
    }
}

/// Duplicate delivery is harmless: receiving an op a second time leaves
/// the state as receiving it once.
pub proof fn law_receive_idempotent(s: SessionModel, op: Op)
    requires
        full_replica(s.replica),
    ensures
        receive_model(receive_model(s, op).0, op).0 == receive_model(s, op).0,
{
    let once = receive_model(s, op).0;
    let twice = receive_model(once, op).0;
    match op {
        Op::Paint { coord, index, write } => {
            if index < TILE_PIXEL_COUNT {
                law_paint_idempotent(s.replica, coord, index as int, write);
            }
            assert(twice.replica =~= once.replica);
        },
        _ => {},
    }
}

/// A refused op changes nothing, and the refusal names the originator and
/// the missing capability.
pub proof fn law_denied_op_changes_nothing(s: SessionModel, op: Op)
    requires
        !crate::permission::caps_in(s.grants, op_originator(op), op_capability(op)),
    ensures
        receive_model(s, op).0 == s,
        receive_model(s, op).1 == Err::<(), SessionError>(
            SessionError::Denied(
                CapabilityError { peer: op_originator(op), required: op_capability(op) },
            ),
        ),
{
}

/// The state after receiving `ops` in order.
pub open spec fn after_ops(s: SessionModel, ops: Seq<Op>) -> SessionModel {
    receive_all_model(s, ops).0
}

proof fn lemma_receive_full(s: SessionModel, op: Op)
    requires
        full_replica(s.replica),
    ensures
        full_replica(receive_model(s, op).0.replica),
{
    let t = receive_model(s, op).0;
    if let Op::Paint { coord, index, write } = op {
        let cells = cells_or_blank(s.replica, coord);
        assert(cells.len() == TILE_PIXEL_COUNT);
        assert forall|c: (i32, i32)| #[trigger] t.replica.contains_key(c) implies t.replica[c].len()
            == TILE_PIXEL_COUNT by {
            if c != coord {
                assert(s.replica.contains_key(c));
            }
        }
    }
}

proof fn lemma_after_full(s: SessionModel, ops: Seq<Op>)
    requires
        full_replica(s.replica),
    ensures
        full_replica(after_ops(s, ops).replica),
    decreases ops.len(),
{
    if ops.len() > 0 {
        lemma_after_full(s, ops.drop_last());
        lemma_receive_full(after_ops(s, ops.drop_last()), ops.last());
    }
}

proof fn lemma_after_push(s: SessionModel, ops: Seq<Op>, op: Op)
    ensures
        after_ops(s, ops.push(op)) == receive_model(after_ops(s, ops), op).0,
{
    assert(ops.push(op).drop_last() =~= ops);
}

proof fn lemma_after_concat(s: SessionModel, a: Seq<Op>, b: Seq<Op>)
    ensures
        after_ops(s, a + b) == after_ops(after_ops(s, a), b),
    decreases b.len(),
{
    if b.len() == 0 {
        assert(a + b =~= a);
    } else {
        let b1 = b.drop_last();
        lemma_after_concat(s, a, b1);
        assert((a + b).drop_last() =~= a + b1);
        assert((a + b).last() == b.last());
    }
}

/// Receiving `x` first or after `a` gives the same state.
proof fn lemma_first_or_last(s: SessionModel, x: Op, a: Seq<Op>)
    requires
        full_replica(s.replica),
    ensures
        after_ops(receive_model(s, x).0, a) == receive_model(after_ops(s, a), x).0,
    decreases a.len(),
{
    if a.len() > 0 {
        let a1 = a.drop_last();
        lemma_first_or_last(s, x, a1);
        lemma_after_full(s, a1);
        law_receive_commutes(after_ops(s, a1), x, a.last());
    }
}

/// An op received first and again within `a` counts once.
proof fn lemma_absorb(s: SessionModel, x: Op, a: Seq<Op>)
    requires
        full_replica(s.replica),
        a.contains(x),
    ensures
        after_ops(receive_model(s, x).0, a) == after_ops(s, a),
    decreases a.len(),
{
    let a1 = a.drop_last();
    let y = a.last();
    if y == x {
        lemma_first_or_last(s, x, a1);
        lemma_after_full(s, a1);
        law_receive_idempotent(after_ops(s, a1), x);
    } else {
        let i = choose|i: int| 0 <= i < a.len() && a[i] == x;
        assert(a1[i] == x);
        lemma_absorb(s, x, a1);
    }
}

/// Ops that were all received before change nothing when received again.
proof fn lemma_subsumed(s: SessionModel, a: Seq<Op>, b: Seq<Op>)
    requires
        full_replica(s.replica),
        forall|x: Op| b.contains(x) ==> a.contains(x),
    ensures
        after_ops(s, a + b) == after_ops(s, a),
    decreases b.len(),
{
    if b.len() == 0 {
        assert(a + b =~= a);
    } else {
        let b1 = b.drop_last();
        let y = b.last();
        assert forall|x: Op| b1.contains(x) implies a.contains(x) by {
            let i = choose|i: int| 0 <= i < b1.len() && b1[i] == x;
            assert(b[i] == x);
        }
        lemma_subsumed(s, a, b1);
        assert((a + b) =~= (a + b1).push(y));
        lemma_after_push(s, a + b1, y);
        assert(b.contains(y)) by {
            assert(b[b.len() - 1] == y);
        }
        lemma_first_or_last(s, y, a);
        lemma_absorb(s, y, a);
    }
}

/// Two batches received in either order give the same state.
proof fn lemma_batches_commute(s: SessionModel, a: Seq<Op>, b: Seq<Op>)
    requires
        full_replica(s.replica),
    ensures
        after_ops(after_ops(s, a), b) == after_ops(after_ops(s, b), a),
    decreases b.len(),
{
    if b.len() > 0 {
        let b1 = b.drop_last();
        let y = b.last();
        lemma_batches_commute(s, a, b1);
        assert(b =~= b1.push(y));
        lemma_after_push(after_ops(s, a), b1, y);
        lemma_after_push(s, b1, y);
        lemma_after_full(s, b1);
        lemma_first_or_last(after_ops(s, b1), y, a);
    }
}

/// Convergence: sessions that start alike and receive the same ops, in
/// any order and with any repetition, end in the same state.
pub proof fn law_receive_converges(s: SessionModel, a: Seq<Op>, b: Seq<Op>)
    requires
        full_replica(s.replica),
        forall|x: Op| a.contains(x) <==> b.contains(x),
    ensures
        after_ops(s, a) == after_ops(s, b),
{
    lemma_subsumed(s, a, b);
    lemma_after_concat(s, a, b);
    lemma_batches_commute(s, a, b);
    lemma_after_concat(s, b, a);
    lemma_subsumed(s, b, a);
}

/// The grants of `s1` and `s2` decide alike on every op of `ops`.
pub open spec fn grants_agree(s1: SessionModel, s2: SessionModel, ops: Seq<Op>) -> bool {
    forall|x: Op|
        ops.contains(x) ==> (crate::permission::caps_in(s1.grants, op_originator(x), op_capability(x))
            <==> crate::permission::caps_in(s2.grants, op_originator(x), op_capability(x)))
}

/// Receiving ops never changes the grants, and the replica it leads to
/// depends only on the starting replica and on which ops the grants admit.
proof fn lemma_replica_independent(s1: SessionModel, s2: SessionModel, ops: Seq<Op>)
    requires
        s1.replica == s2.replica,
        grants_agree(s1, s2, ops),
    ensures
        after_ops(s1, ops).replica == after_ops(s2, ops).replica,
        after_ops(s1, ops).grants == s1.grants,
        after_ops(s2, ops).grants == s2.grants,
    decreases ops.len(),
{
    if ops.len() > 0 {
        let o = ops.drop_last();
        let x = ops.last();
        assert(ops.contains(x)) by {
            assert(ops[ops.len() - 1] == x);
        }
        assert forall|y: Op| o.contains(y) implies ops.contains(y) by {
            let i = choose|i: int| 0 <= i < o.len() && o[i] == y;
            assert(ops[i] == y);
        }
        lemma_replica_independent(s1, s2, o);
    }
}

/// Convergence across sessions: two sessions, whatever their peers, clocks
/// and grant tables, that start from the same replica and receive the same
/// ops, in any order and with any repetition, end with the same replica
/// and so the same canvas digest, as long as their grants decide alike on
/// every op's originator.
pub proof fn law_sessions_converge(s1: SessionModel, s2: SessionModel, a: Seq<Op>, b: Seq<Op>)
    requires
        full_replica(s1.replica),
        s1.replica == s2.replica,
        forall|x: Op| a.contains(x) <==> b.contains(x),
        grants_agree(s1, s2, a),
    ensures
        after_ops(s1, a).replica == after_ops(s2, b).replica,
        replica_digest(after_ops(s1, a).replica) == replica_digest(after_ops(s2, b).replica),
{
    lemma_replica_independent(s1, s2, a);
    law_receive_converges(s2, a, b);
}

/// Sequence numbers never go back: receiving any op leaves the layer
/// sequence at least where it was, and a permitted layer mutation with
/// sequence `seq` leaves it at least `seq`, so the next local mutation is
/// numbered above every one seen.
pub proof fn law_layer_seq_covers_received(s: SessionModel, op: Op)
    ensures
        receive_model(s, op).0.layer_seq >= s.layer_seq,
        receive_model(s, op).0.lamport >= s.lamport,
        match op {
            Op::LayerMutate { by, seq: n } => crate::permission::caps_in(s.grants, by, Capability::LayerMutate)
                ==> receive_model(s, op).0.layer_seq >= n,
            Op::Paint { write: w, .. } => crate::permission::caps_in(s.grants, w.dot.peer, Capability::Paint)
                ==> receive_model(s, op).0.lamport >= w.dot.lamport,
        },
{
}

} // verus!
