//! Conflict-free tile merging for collaborative sessions.
//!
//! A collaborative tile is a grid of `TILE_PIXEL_COUNT` cells, each a
//! last-writer-wins register (`VPixel`). Two registers merge to the one with
//! the greater key under the total lexicographic order on
//! `(dot.lamport, dot.peer, value)`; a tile merge is that join applied cell
//! by cell. The join is commutative, associative and idempotent, so
//! replicas that have seen the same writes agree whatever the order or
//! multiplicity of delivery.

use vstd::prelude::*;

verus! {

broadcast use vstd::array::group_array_axioms;

/// Width and height of a square tile in pixels.
pub const TILE_SIZE: usize = 64;

/// Number of cells in one tile (`TILE_SIZE * TILE_SIZE`).
pub const TILE_PIXEL_COUNT: usize = 4096;

/// A pixel value: four half-float bit patterns (R, G, B, A).
pub type Rgba = [u16; 4];

/// The fully transparent pixel, the value of a never-written cell.
pub fn transparent() -> (r: Rgba)
    ensures
        r == [0u16, 0u16, 0u16, 0u16],
{
    [0u16, 0u16, 0u16, 0u16]
}

/// A peer's stable identity within a session.
#[derive(Clone, Copy, Debug, PartialEq, Eq, Structural, PartialOrd, Ord, Hash)]
pub struct PeerId(pub u64);

/// A logical timestamp: a Lamport clock and the originating peer.
/// `lamport == 0` is reserved for the dot of a never-written cell.
#[derive(Clone, Copy, Debug, PartialEq, Eq, Structural, PartialOrd, Ord, Hash)]
pub struct Dot {
    pub lamport: u64,
    pub peer: PeerId,
}

/// The bottom dot, below every genuine write.
pub open spec fn spec_bottom() -> Dot {
    Dot { lamport: 0, peer: PeerId(0) }
}

impl Dot {
    /// The bottom dot, below every genuine write.
    pub fn bottom() -> (d: Dot)
        ensures
            d == spec_bottom(),
    {
        Dot { lamport: 0, peer: PeerId(0) }
    }
}

/// A last-writer-wins register for one pixel cell.
#[derive(Clone, Copy, Debug, PartialEq, Eq, PartialOrd, Ord, Hash)]
pub struct VPixel {
    pub dot: Dot,
    pub value: Rgba,
}

/// Strict lexicographic order on pixel values.
pub open spec fn rgba_lt(a: Rgba, b: Rgba) -> bool {
    a[0] < b[0] || (a[0] == b[0] && (a[1] < b[1] || (a[1] == b[1] && (a[2] < b[2] || (a[2]
        == b[2] && a[3] < b[3])))))
}

/// The strict total order of the join key `(lamport, peer, value)`.
pub open spec fn key_lt(a: VPixel, b: VPixel) -> bool {
    a.dot.lamport < b.dot.lamport || (a.dot.lamport == b.dot.lamport && (a.dot.peer.0
        < b.dot.peer.0 || (a.dot.peer.0 == b.dot.peer.0 && rgba_lt(a.value, b.value))))
}

/// The join of two registers: the one with the greater key.
pub open spec fn join(a: VPixel, b: VPixel) -> VPixel {
    if key_lt(a, b) {
        b
    } else {
        a
    }
}

/// The blank cell: transparent, stamped with the bottom dot.
pub open spec fn spec_blank() -> VPixel {
    VPixel { dot: spec_bottom(), value: [0u16, 0u16, 0u16, 0u16] }
}

fn rgba_less(a: &Rgba, b: &Rgba) -> (r: bool)
    ensures
        r == rgba_lt(*a, *b),
{
    a[0] < b[0] || (a[0] == b[0] && (a[1] < b[1] || (a[1] == b[1] && (a[2] < b[2] || (a[2]
        == b[2] && a[3] < b[3])))))
}

fn key_less(a: &VPixel, b: &VPixel) -> (r: bool)
    ensures
        r == key_lt(*a, *b),
{
    a.dot.lamport < b.dot.lamport || (a.dot.lamport == b.dot.lamport && (a.dot.peer.0
        < b.dot.peer.0 || (a.dot.peer.0 == b.dot.peer.0 && rgba_less(&a.value, &b.value))))
}

impl VPixel {
    /// The blank cell: transparent, stamped with the bottom dot.
    pub fn blank() -> (p: VPixel)
        ensures
            p == spec_blank(),
    {
        let value = [0u16, 0u16, 0u16, 0u16];
        VPixel { dot: Dot::bottom(), value }
    }

    /// A cell written by `peer` at logical time `lamport` with `value`.
    pub fn write(lamport: u64, peer: PeerId, value: Rgba) -> (p: VPixel)
        ensures
            p == (VPixel { dot: Dot { lamport, peer }, value }),
    {
        VPixel { dot: Dot { lamport, peer }, value }
    }

    /// The join: keep the register with the greater key.
    pub fn merge(self, other: VPixel) -> (r: VPixel)
        ensures
            r == join(self, other),
    {
        if key_less(&self, &other) {
            other
        } else {
            self
        }
    }
}

//==============================================================================
// Laws of the register join
//==============================================================================

proof fn lemma_key_total(a: VPixel, b: VPixel)
    ensures
        !key_lt(a, b) && !key_lt(b, a) ==> a == b,
        !(key_lt(a, b) && key_lt(b, a)),
{
    if !key_lt(a, b) && !key_lt(b, a) {
        assert(a.value =~= b.value);
    }
}

/// The register join is commutative.
pub proof fn law_join_commutative(a: VPixel, b: VPixel)
    ensures
        join(a, b) == join(b, a),
{
    lemma_key_total(a, b);
}

/// The register join is associative.
pub proof fn law_join_associative(a: VPixel, b: VPixel, c: VPixel)
    ensures
        join(a, join(b, c)) == join(join(a, b), c),
{
    lemma_key_total(a, b);
    lemma_key_total(b, c);
    lemma_key_total(a, c);
}

/// The register join is idempotent: delivering a write twice is a no-op.
pub proof fn law_join_idempotent(a: VPixel)
    ensures
        join(a, a) == a,
{
}

/// A genuine write (Lamport clock at least 1) dominates a blank cell.
pub proof fn law_blank_is_dominated(w: VPixel)
    requires
        w.dot.lamport >= 1,
    ensures
        join(spec_blank(), w) == w,
        join(w, spec_blank()) == w,
{
}

//==============================================================================
// Tiles
//==============================================================================

/// Pointwise join of two cell sequences of the same length.
pub open spec fn join_cells(a: Seq<VPixel>, b: Seq<VPixel>) -> Seq<VPixel> {
    Seq::new(a.len(), |i: int| join(a[i], b[i]))
}

/// A collaborative tile: its grid coordinate and one register per cell.
#[derive(Debug, PartialEq, Eq)]
pub struct CrdtTile {
    /// Grid coordinate (tile units).
    pub coord: (i32, i32),
    cells: Vec<VPixel>,
}

/// Why a write or merge was rejected.
#[derive(Clone, Copy, Debug, PartialEq, Eq, Structural)]
pub enum TileMergeError {
    /// Pixel index at or past `TILE_PIXEL_COUNT`.
    IndexOutOfRange,
    /// The tiles describe different grid coordinates.
    CoordMismatch,
}

/// The cells a tile resolves to after its painted cells, in index order.
pub open spec fn painted(cells: Seq<VPixel>) -> Seq<(usize, Rgba)>
    decreases cells.len(),
{
    if cells.len() == 0 {
        Seq::empty()
    } else {
        let i = cells.len() - 1;
        let rest = painted(cells.drop_last());
        if cells[i].dot == spec_bottom() {
            rest
        } else {
            rest.push((i as usize, cells[i].value))
        }
    }
}

impl CrdtTile {
    /// The registers of the tile, in row-major cell order.
    pub closed spec fn cells(&self) -> Seq<VPixel> {
        self.cells@
    }

    /// The grid coordinate of the tile.
    pub closed spec fn coord_of(&self) -> (i32, i32) {
        self.coord
    }

    /// The grid coordinate of the tile.
    pub fn grid_coord(&self) -> (c: (i32, i32))
        ensures
            c == self.coord_of(),
    {
        self.coord
    }

    /// The tile has exactly `TILE_PIXEL_COUNT` cells.
    pub open spec fn wf(&self) -> bool {
        self.cells().len() == TILE_PIXEL_COUNT
    }

    /// A blank tile at `coord`: every cell transparent and stamped bottom.
    pub fn blank(coord: (i32, i32)) -> (t: CrdtTile)
        ensures
            t.wf(),
            t.coord_of() == coord,
            forall|i: int| 0 <= i < TILE_PIXEL_COUNT ==> t.cells()[i] == spec_blank(),
    {
        let mut cells: Vec<VPixel> = Vec::new();
        let mut i: usize = 0;
        while i < TILE_PIXEL_COUNT
            invariant
                i <= TILE_PIXEL_COUNT,
                cells@.len() == i,
                forall|j: int| 0 <= j < i ==> cells@[j] == spec_blank(),
            decreases TILE_PIXEL_COUNT - i,
        {
            cells.push(VPixel::blank());
            i += 1;
        }
        CrdtTile { coord, cells }
    }

    /// The register at `index`.
    pub fn cell(&self, index: usize) -> (r: Result<VPixel, TileMergeError>)
        ensures
            index < self.cells().len() ==> r == Ok::<VPixel, TileMergeError>(self.cells()[index as int]),
            index >= self.cells().len() ==> r == Err::<VPixel, TileMergeError>(
                TileMergeError::IndexOutOfRange,
            ),
    {
        if index < self.cells.len() {
            Ok(self.cells[index])
        } else {
            Err(TileMergeError::IndexOutOfRange)
        }
    }

    /// The resolved pixel value at `index`.
    pub fn value(&self, index: usize) -> (r: Result<Rgba, TileMergeError>)
        ensures
            index < self.cells().len() ==> r == Ok::<Rgba, TileMergeError>(
                self.cells()[index as int].value,
            ),
            index >= self.cells().len() ==> r == Err::<Rgba, TileMergeError>(
                TileMergeError::IndexOutOfRange,
            ),
    {
        match self.cell(index) {
            Ok(c) => Ok(c.value),
            Err(e) => Err(e),
        }
    }

    /// Join `write` into the register at `index`. A duplicate or stale
    /// write leaves the cell as it is.
    pub fn apply(&mut self, index: usize, write: VPixel) -> (r: Result<(), TileMergeError>)
        ensures
            final(self).coord_of() == old(self).coord_of(),
            index < old(self).cells().len() ==> r == Ok::<(), TileMergeError>(())
                && final(self).cells() == old(self).cells().update(
                index as int,
                join(old(self).cells()[index as int], write),
            ),
            index >= old(self).cells().len() ==> r == Err::<(), TileMergeError>(
                TileMergeError::IndexOutOfRange,
            ) && final(self).cells() == old(self).cells(),
    {
        if index >= self.cells.len() {
            return Err(TileMergeError::IndexOutOfRange);
        }
        let cur = self.cells[index];
        self.cells.set(index, cur.merge(write));
        Ok(())
    }

    /// Merge another replica of this tile into `self`, cell by cell.
    pub fn merge(&mut self, other: &CrdtTile) -> (r: Result<(), TileMergeError>)
        requires
            old(self).wf(),
            other.wf(),
        ensures
            final(self).coord_of() == old(self).coord_of(),
            old(self).coord_of() == other.coord_of() ==> r == Ok::<(), TileMergeError>(())
                && final(self).cells() == join_cells(old(self).cells(), other.cells()),
            old(self).coord_of() != other.coord_of() ==> r == Err::<(), TileMergeError>(
                TileMergeError::CoordMismatch,
            ) && final(self).cells() == old(self).cells(),
    {
        if !(self.coord.0 == other.coord.0 && self.coord.1 == other.coord.1) {
            return Err(TileMergeError::CoordMismatch);
        }
        let ghost a = self.cells@;
        let ghost c0 = self.coord;
        let mut i: usize = 0;
        while i < TILE_PIXEL_COUNT
            invariant
                i <= TILE_PIXEL_COUNT,
                self.coord == c0,
                a.len() == TILE_PIXEL_COUNT,
                other.cells@.len() == TILE_PIXEL_COUNT,
                self.cells@.len() == TILE_PIXEL_COUNT,
                forall|j: int| 0 <= j < i ==> self.cells@[j] == join(a[j], other.cells@[j]),
                forall|j: int| i <= j < TILE_PIXEL_COUNT ==> self.cells@[j] == a[j],
            decreases TILE_PIXEL_COUNT - i,
        {
            let cur = self.cells[i];
            self.cells.set(i, cur.merge(other.cells[i]));
            i += 1;
        }
        assert(self.cells@ =~= join_cells(a, other.cells@));
        Ok(())
    }

    /// `self` joined with `other` as a fresh tile; when the coordinates
    /// differ, a copy of `self`.
    pub fn merged(&self, other: &CrdtTile) -> (t: CrdtTile)
        requires
            self.wf(),
            other.wf(),
        ensures
            t.wf(),
            t.coord_of() == self.coord_of(),
            self.coord_of() == other.coord_of() ==> t.cells() == join_cells(self.cells(), other.cells()),
            self.coord_of() != other.coord_of() ==> t.cells() == self.cells(),
    {
        let same = self.coord.0 == other.coord.0 && self.coord.1 == other.coord.1;
        let mut cells: Vec<VPixel> = Vec::new();
        let mut i: usize = 0;
        while i < TILE_PIXEL_COUNT
            invariant
                i <= TILE_PIXEL_COUNT,
                self.cells@.len() == TILE_PIXEL_COUNT,
                other.cells@.len() == TILE_PIXEL_COUNT,
                same == (self.coord == other.coord),
                cells@.len() == i,
                forall|j: int|
                    0 <= j < i ==> cells@[j] == if same {
                        join(self.cells@[j], other.cells@[j])
                    } else {
                        self.cells@[j]
                    },
            decreases TILE_PIXEL_COUNT - i,
        {
            let cur = self.cells[i];
            if same {
                cells.push(cur.merge(other.cells[i]));
            } else {
                cells.push(cur);
            }
            i += 1;
        }
        let t = CrdtTile { coord: self.coord, cells };
        if same {
            assert(t.cells() =~= join_cells(self.cells(), other.cells()));
        } else {
            assert(t.cells() =~= self.cells());
        }
        t
    }

    /// `(index, value)` of every cell that has been written (carries a
    /// non-bottom dot), in index order.
    pub fn painted_cells(&self) -> (v: Vec<(usize, Rgba)>)
        ensures
            v@ == painted(self.cells()),
    {
        let mut v: Vec<(usize, Rgba)> = Vec::new();
        let mut i: usize = 0;
        let bottom = Dot::bottom();
        while i < self.cells.len()
            invariant
                i <= self.cells@.len(),
                bottom == spec_bottom(),
                v@ == painted(self.cells@.take(i as int)),
            decreases self.cells@.len() - i,
        {
            let c = self.cells[i];
            proof {
                assert(self.cells@.take(i + 1).drop_last() =~= self.cells@.take(i as int));
            }
            if c.dot != bottom {
                v.push((i, c.value));
            }
            i += 1;
        }
        assert(self.cells@.take(self.cells@.len() as int) =~= self.cells@);
        v
    }
}

impl Clone for CrdtTile {
    /// A copy holding the same coordinate and cells.
    fn clone(&self) -> (t: CrdtTile)
        ensures
            t.coord_of() == self.coord_of(),
            t.cells() == self.cells(),
    {
        let mut cells: Vec<VPixel> = Vec::new();
        let mut i: usize = 0;
        while i < self.cells.len()
            invariant
                i <= self.cells@.len(),
                cells@ == self.cells@.take(i as int),
            decreases self.cells@.len() - i,
        {
            cells.push(self.cells[i]);
            i += 1;
            assert(cells@ =~= self.cells@.take(i as int));
        }
        assert(self.cells@.take(self.cells@.len() as int) =~= self.cells@);
        CrdtTile { coord: self.coord, cells }
    }
}

//==============================================================================
// Laws of the tile merge
//==============================================================================

/// Tile merge is commutative: `a.merged(&b)` and `b.merged(&a)` hold the
/// same cells when the coordinates agree.
pub proof fn law_tile_merge_commutative(a: Seq<VPixel>, b: Seq<VPixel>)
    requires
        a.len() == b.len(),
    ensures
        join_cells(a, b) == join_cells(b, a),
{
    assert forall|i: int| 0 <= i < a.len() implies join_cells(a, b)[i] == join_cells(b, a)[i] by {
        law_join_commutative(a[i], b[i]);
    }
    assert(join_cells(a, b) =~= join_cells(b, a));
}

/// Tile merge is associative.
pub proof fn law_tile_merge_associative(a: Seq<VPixel>, b: Seq<VPixel>, c: Seq<VPixel>)
    requires
        a.len() == b.len(),
        b.len() == c.len(),
    ensures
        join_cells(a, join_cells(b, c)) == join_cells(join_cells(a, b), c),
{
    assert forall|i: int| 0 <= i < a.len() implies join_cells(a, join_cells(b, c))[i]
        == join_cells(join_cells(a, b), c)[i] by {
        law_join_associative(a[i], b[i], c[i]);
    }
    assert(join_cells(a, join_cells(b, c)) =~= join_cells(join_cells(a, b), c));
}

/// Tile merge is idempotent: merging a replica with itself changes nothing.
pub proof fn law_tile_merge_idempotent(a: Seq<VPixel>)
    ensures
        join_cells(a, a) == a,
{
    assert(join_cells(a, a) =~= a);
}

/// Applying two writes commutes: the cells after `apply(i, w1)` then
/// `apply(j, w2)` equal those after the two in the other order.
pub proof fn law_apply_commutes(cells: Seq<VPixel>, i: int, w1: VPixel, j: int, w2: VPixel)
    requires
        0 <= i < cells.len(),
        0 <= j < cells.len(),
    ensures
        ({
            let c1 = cells.update(i, join(cells[i], w1));
            let c12 = c1.update(j, join(c1[j], w2));
            let c2 = cells.update(j, join(cells[j], w2));
            let c21 = c2.update(i, join(c2[i], w1));
            c12 == c21
        }),
{
    let c1 = cells.update(i, join(cells[i], w1));
    let c12 = c1.update(j, join(c1[j], w2));
    let c2 = cells.update(j, join(cells[j], w2));
    let c21 = c2.update(i, join(c2[i], w1));
    if i == j {
        law_join_associative(cells[i], w1, w2);
        law_join_associative(cells[i], w2, w1);
        law_join_commutative(w1, w2);
    }
    assert(c12 =~= c21);
}

/// Applying the same write twice is the same as applying it once.
pub proof fn law_apply_idempotent(cells: Seq<VPixel>, i: int, w: VPixel)
    requires
        0 <= i < cells.len(),
    ensures
        ({
            let c1 = cells.update(i, join(cells[i], w));
            c1.update(i, join(c1[i], w)) == c1
        }),
{
    let c1 = cells.update(i, join(cells[i], w));
    law_join_associative(cells[i], w, w);
    assert(c1.update(i, join(c1[i], w)) =~= c1);
}

} // verus!
