//! An ordered stack of layers with stable identifiers.
//!
//! Layers are kept bottom (index 0) to top. Every layer pushed gets a new
//! `LayerId` from a counter that only grows, so an id is never handed out
//! twice while the counter has not reached `u32::MAX`; deleting or
//! reordering layers never changes the counter.

use vstd::prelude::*;
use crate::tile::{LayerId, LayerStackError, TileError};

verus! {

/// The first index at which `id` occurs in `ids`, or `ids.len()`.
pub open spec fn first_index(ids: Seq<LayerId>, id: LayerId) -> int
    decreases ids.len(),
{
    if ids.len() == 0 {
        0
    } else if ids[0] == id {
        0
    } else {
        1 + first_index(ids.skip(1), id)
    }
}

/// No identifier occurs twice.
pub open spec fn distinct(ids: Seq<LayerId>) -> bool {
    forall|i: int, j: int| 0 <= i < j < ids.len() ==> ids[i] != ids[j]
}

/// `first_index` is the position of the first occurrence, or the length
/// when there is none.
pub proof fn lemma_first_index(ids: Seq<LayerId>, id: LayerId)
    ensures
        0 <= first_index(ids, id) <= ids.len(),
        first_index(ids, id) < ids.len() <==> ids.contains(id),
        first_index(ids, id) < ids.len() ==> ids[first_index(ids, id)] == id,
        forall|k: int| 0 <= k < first_index(ids, id) ==> ids[k] != id,
    decreases ids.len(),
{
    if ids.len() > 0 && ids[0] != id {
        lemma_first_index(ids.skip(1), id);
        assert forall|k: int| 0 <= k < first_index(ids, id) implies ids[k] != id by {
            if k > 0 {
                assert(ids[k] == ids.skip(1)[k - 1]);
            }
        }
        if ids.contains(id) {
            let w = choose|w: int| 0 <= w < ids.len() && ids[w] == id;
            assert(ids.skip(1)[w - 1] == id);
        }
        if ids.skip(1).contains(id) {
            let w = choose|w: int| 0 <= w < ids.skip(1).len() && ids.skip(1)[w] == id;
            assert(ids[w + 1] == id);
        }
    }
}

/// In a sequence without repeats, an occurrence is the first one.
pub proof fn lemma_first_index_distinct(ids: Seq<LayerId>, i: int)
    requires
        distinct(ids),
        0 <= i < ids.len(),
    ensures
        first_index(ids, ids[i]) == i,
{
    lemma_first_index(ids, ids[i]);
    let f = first_index(ids, ids[i]);
    assert(ids.contains(ids[i]));
    if f < i {
        assert(ids[f] == ids[i]);
    }
}

/// Layers bottom to top, each with its identifier.
pub struct LayerStack<L> {
    layers: Vec<L>,
    ids: Vec<LayerId>,
    next_id: u32,
}

impl<L> LayerStack<L> {
    /// The layers, bottom to top.
    pub closed spec fn layers(&self) -> Seq<L> {
        self.layers@
    }

    /// The identifiers of the layers, bottom to top.
    pub closed spec fn ids(&self) -> Seq<LayerId> {
        self.ids@
    }

    /// The number the next pushed layer's identifier gets.
    pub closed spec fn issued(&self) -> u32 {
        self.next_id
    }

    /// One identifier per layer, and every identifier below the counter
    /// unless the counter is exhausted.
    pub closed spec fn wf(&self) -> bool {
        &&& self.ids@.len() == self.layers@.len()
        &&& forall|i: int|
            0 <= i < self.ids@.len() ==> (#[trigger] self.ids@[i]).as_u32_spec() < self.next_id
                || self.next_id == u32::MAX
    }

    /// The layer identified by `id`, if present.
    pub open spec fn lookup(&self, id: LayerId) -> Option<L> {
        if self.ids().contains(id) {
            Some(self.layers()[first_index(self.ids(), id)])
        } else {
            None
        }
    }

    /// An empty stack; the first identifier it hands out is 0.
    pub fn new() -> (s: Self)
        ensures
            s.wf(),
            s.layers() == Seq::<L>::empty(),
            s.ids() == Seq::<LayerId>::empty(),
            s.issued() == 0,
    {
        LayerStack { layers: Vec::new(), ids: Vec::new(), next_id: 0 }
    }

    /// The number of layers.
    pub fn len(&self) -> (n: usize)
        requires
            self.wf(),
        ensures
            n == self.layers().len(),
            n == self.ids().len(),
    {
        self.layers.len()
    }

    /// Whether there are no layers.
    pub fn is_empty(&self) -> (b: bool)
        ensures
            b == (self.layers().len() == 0),
    {
        self.layers.len() == 0
    }

    /// Put `layer` on top; returns its new identifier, the counter's value
    /// (the counter then grows by one, stopping at `u32::MAX`).
    pub fn push(&mut self, layer: L) -> (id: LayerId)
        requires
            old(self).wf(),
        ensures
            final(self).wf(),
            id.as_u32_spec() == old(self).issued(),
            final(self).layers() == old(self).layers().push(layer),
            final(self).ids() == old(self).ids().push(id),
            final(self).issued() == if old(self).issued() < u32::MAX {
                (old(self).issued() + 1) as u32
            } else {
                u32::MAX
            },
            old(self).issued() < u32::MAX ==> !old(self).ids().contains(id),
            old(self).issued() < u32::MAX && distinct(old(self).ids()) ==> distinct(final(self).ids()),
    {
        let id = LayerId::from_u32(self.next_id);
        self.next_id = self.next_id.saturating_add(1);
        self.layers.push(layer);
        self.ids.push(id);
        proof {
            if old(self).next_id < u32::MAX {
                if old(self).ids@.contains(id) {
                    let w = choose|w: int| 0 <= w < old(self).ids@.len() && old(self).ids@[w] == id;
                    assert(old(self).ids@[w].as_u32_spec() < old(self).next_id);
                }
            }
            assert forall|i: int| 0 <= i < self.ids@.len() implies (#[trigger] self.ids@[i]).as_u32_spec()
                < self.next_id || self.next_id == u32::MAX by {
                if i < old(self).ids@.len() {
                    assert(self.ids@[i] == old(self).ids@[i]);
                }
            }
        }
        id
    }

    /// The position of the layer `id`, counted from the bottom.
    pub fn position_of(&self, id: LayerId) -> (r: Option<usize>)
        requires
            self.wf(),
        ensures
            self.ids().contains(id) ==> (r matches Some(i) && i as int == first_index(self.ids(), id)),
            !self.ids().contains(id) ==> r is None,
    {
        proof {
            lemma_first_index(self.ids@, id);
        }
        let mut i: usize = 0;
        while i < self.ids.len()
            invariant
                i <= self.ids@.len(),
                forall|k: int| 0 <= k < i ==> self.ids@[k] != id,
                first_index(self.ids@, id) >= i,
                forall|k: int| 0 <= k < first_index(self.ids@, id) ==> self.ids@[k] != id,
                first_index(self.ids@, id) <= self.ids@.len(),
                first_index(self.ids@, id) < self.ids@.len() <==> self.ids@.contains(id),
                first_index(self.ids@, id) < self.ids@.len() ==> self.ids@[first_index(self.ids@, id)] == id,
            decreases self.ids@.len() - i,
        {
            if self.ids[i] == id {
                return Some(i);
            }
            i += 1;
        }
        None
    }

    /// The layer identified by `id`.
    pub fn get(&self, id: LayerId) -> (r: Option<&L>)
        requires
            self.wf(),
        ensures
            r matches Some(l) ==> self.lookup(id) == Some(*l),
            r is None ==> self.lookup(id) is None,
    {
        proof {
            lemma_first_index(self.ids@, id);
        }
        match self.position_of(id) {
            Some(i) => Some(&self.layers[i]),
            None => None,
        }
    }

    /// The layer identified by `id`, to modify in place.
    pub fn get_mut(&mut self, id: LayerId) -> (r: Option<&mut L>)
        requires
            old(self).wf(),
        ensures
            !old(self).ids().contains(id) ==> r is None && *final(self) == *old(self),
            old(self).ids().contains(id) ==> r is Some,
            r matches Some(l) ==> *l == old(self).layers()[first_index(old(self).ids(), id)]
                && final(self).layers() == old(self).layers().update(
                first_index(old(self).ids(), id),
                *final(l),
            ) && final(self).ids() == old(self).ids() && final(self).issued() == old(self).issued(),
    {
        proof {
            lemma_first_index(self.ids@, id);
        }
        match self.position_of(id) {
            Some(i) => Some(&mut self.layers[i]),
            None => None,
        }
    }

    /// The layer at `position`, counted from the bottom.
    pub fn get_at(&self, position: usize) -> (r: Option<&L>)
        ensures
            position < self.layers().len() ==> r == Some(&self.layers()[position as int]),
            position >= self.layers().len() ==> r is None,
    {
        if position < self.layers.len() {
            Some(&self.layers[position])
        } else {
            None
        }
    }

    /// Every layer with its identifier, bottom to top.
    pub fn iter(&self) -> (v: Vec<(LayerId, &L)>)
        requires
            self.wf(),
        ensures
            v@.len() == self.layers().len(),
            forall|i: int|
                0 <= i < v@.len() ==> (#[trigger] v@[i]).0 == self.ids()[i] && *v@[i].1
                    == self.layers()[i],
    {
        let mut v: Vec<(LayerId, &L)> = Vec::new();
        let mut i: usize = 0;
        while i < self.layers.len()
            invariant
                i <= self.layers@.len(),
                self.ids@.len() == self.layers@.len(),
                v@.len() == i,
                forall|k: int|
                    0 <= k < i ==> (#[trigger] v@[k]).0 == self.ids@[k] && *v@[k].1 == self.layers@[k],
            decreases self.layers@.len() - i,
        {
            v.push((self.ids[i], &self.layers[i]));
            i += 1;
        }
        v
    }

    /// Remove the layer `id` and return it; `None` if absent.
    pub fn delete(&mut self, id: LayerId) -> (r: Option<L>)
        requires
            old(self).wf(),
        ensures
            final(self).wf(),
            final(self).issued() == old(self).issued(),
            !old(self).ids().contains(id) ==> r is None && final(self).layers() == old(self).layers()
                && final(self).ids() == old(self).ids(),
            old(self).ids().contains(id) ==> r == Some(
                old(self).layers()[first_index(old(self).ids(), id)],
            ) && final(self).layers() == old(self).layers().remove(
                first_index(old(self).ids(), id),
            ) && final(self).ids() == old(self).ids().remove(first_index(old(self).ids(), id)),
            distinct(old(self).ids()) ==> distinct(final(self).ids()) && !final(self).ids().contains(id),
    {
        proof {
            lemma_first_index(self.ids@, id);
        }
        match self.position_of(id) {
            Some(pos) => {
                self.ids.remove(pos);
                let l = self.layers.remove(pos);
                proof {
                    assert forall|i: int| 0 <= i < self.ids@.len() implies (
                    #[trigger] self.ids@[i]).as_u32_spec() < self.next_id || self.next_id == u32::MAX by {
                        if i < pos {
                            assert(self.ids@[i] == old(self).ids@[i]);
                        } else {
                            assert(self.ids@[i] == old(self).ids@[i + 1]);
                        }
                    }
                    if distinct(old(self).ids@) {
                        assert forall|i: int, j: int| 0 <= i < j < self.ids@.len() implies self.ids@[i]
                            != self.ids@[j] by {
                            let oi = if i < pos { i } else { i + 1 };
                            let oj = if j < pos { j } else { j + 1 };
                            assert(self.ids@[i] == old(self).ids@[oi]);
                            assert(self.ids@[j] == old(self).ids@[oj]);
                        }
                        if self.ids@.contains(id) {
                            let w = choose|w: int| 0 <= w < self.ids@.len() && self.ids@[w] == id;
                            let ow = if w < pos { w } else { w + 1 };
                            assert(old(self).ids@[ow] == id);
                            assert(old(self).ids@[pos as int] == id);
                        }
                    }
                }
                Some(l)
            },
            None => None,
        }
    }

    /// Move the layer `id` to `new_position`, shifting the layers between;
    /// returns its old position.
    pub fn reorder_to(&mut self, id: LayerId, new_position: usize) -> (r: Result<usize, LayerStackError>)
        requires
            old(self).wf(),
        ensures
            final(self).wf(),
            final(self).issued() == old(self).issued(),
            !old(self).ids().contains(id) ==> r == Err::<usize, LayerStackError>(
                LayerStackError::UnknownLayer,
            ) && *final(self) == *old(self),
            old(self).ids().contains(id) && new_position >= old(self).layers().len() ==> r == Err::<
                usize,
                LayerStackError,
            >(LayerStackError::PositionOutOfBounds) && *final(self) == *old(self),
            old(self).ids().contains(id) && new_position < old(self).layers().len() ==> ({
                let p = first_index(old(self).ids(), id);
                &&& r == Ok::<usize, LayerStackError>(p as usize)
                &&& final(self).layers() == old(self).layers().remove(p).insert(
                    new_position as int,
                    old(self).layers()[p],
                )
                &&& final(self).ids() == old(self).ids().remove(p).insert(new_position as int, id)
            }),
    {
        proof {
            lemma_first_index(self.ids@, id);
        }
        let old_pos = match self.position_of(id) {
            Some(p) => p,
            None => {
                return Err(LayerStackError::UnknownLayer);
            },
        };
        if new_position >= self.layers.len() {
            return Err(LayerStackError::PositionOutOfBounds);
        }
        if old_pos == new_position {
            proof {
                assert(self.layers@.remove(old_pos as int).insert(new_position as int, self.layers@[old_pos as int])
                    =~= self.layers@);
                assert(self.ids@.remove(old_pos as int).insert(new_position as int, id) =~= self.ids@);
            }
            return Ok(old_pos);
        }
        let layer = self.layers.remove(old_pos);
        let moved = self.ids.remove(old_pos);
        self.layers.insert(new_position, layer);
        self.ids.insert(new_position, moved);
        proof {
            assert forall|i: int| 0 <= i < self.ids@.len() implies (#[trigger] self.ids@[i]).as_u32_spec()
                < self.next_id || self.next_id == u32::MAX by {
                let mid = old(self).ids@.remove(old_pos as int);
                if i == new_position {
                    assert(self.ids@[i] == old(self).ids@[old_pos as int]);
                } else if i < new_position {
                    assert(self.ids@[i] == mid[i]);
                    if i < old_pos {
                        assert(mid[i] == old(self).ids@[i]);
                    } else {
                        assert(mid[i] == old(self).ids@[i + 1]);
                    }
                } else {
                    assert(self.ids@[i] == mid[i - 1]);
                    if i - 1 < old_pos {
                        assert(mid[i - 1] == old(self).ids@[i - 1]);
                    } else {
                        assert(mid[i - 1] == old(self).ids@[i]);
                    }
                }
            }
        }
        Ok(old_pos)
    }
}

impl From<TileError> for LayerStackError {
    /// A tile failure as a stack error.
    fn from(e: TileError) -> (r: LayerStackError) {
        LayerStackError::Tile(e)
    }
}

impl vstd::std_specs::convert::FromSpecImpl<TileError> for LayerStackError {
    open spec fn obeys_from_spec() -> bool {
        true
    }

    open spec fn from_spec(e: TileError) -> LayerStackError {
        LayerStackError::Tile(e)
    }
}

/// Moving one layer keeps every identifier naming the same layer:
/// when no identifier repeats, a lookup after `reorder_to` gives what it
/// gave before, for every identifier.
pub proof fn law_reorder_preserves_lookup<L>(before: LayerStack<L>, after: LayerStack<L>, id: LayerId, p: int, q: int)
    requires
        before.wf(),
        distinct(before.ids()),
        0 <= p < before.ids().len(),
        0 <= q < before.ids().len(),
        before.ids()[p] == id,
        after.ids() == before.ids().remove(p).insert(q, id),
        after.layers() == before.layers().remove(p).insert(q, before.layers()[p]),
    ensures
        distinct(after.ids()),
        forall|x: LayerId| #[trigger] after.lookup(x) == before.lookup(x),
{
    let b = before.ids();
    let a = after.ids();
    let mid = b.remove(p);
    let map = |i: int|
        if i == q {
            p
        } else if i < q {
            if i < p {
                i
            } else {
                i + 1
            }
        } else {
            if i - 1 < p {
                i - 1
            } else {
                i
            }
        };
    assert forall|i: int| 0 <= i < a.len() implies a[i] == b[map(i)] && after.layers()[i]
        == before.layers()[map(i)] && 0 <= map(i) < b.len() by {
        if i == q {
        } else if i < q {
            assert(a[i] == mid[i]);
        } else {
            assert(a[i] == mid[i - 1]);
        }
    }
    assert forall|i: int, j: int| 0 <= i < j < a.len() implies a[i] != a[j] by {
        assert(a[i] == b[map(i)]);
        assert(a[j] == b[map(j)]);
        assert(map(i) != map(j));
    }
    assert forall|x: LayerId| #[trigger] after.lookup(x) == before.lookup(x) by {
        lemma_first_index(a, x);
        lemma_first_index(b, x);
        if a.contains(x) {
            let i = first_index(a, x);
            assert(b[map(i)] == x);
            assert(b.contains(x));
            lemma_first_index_distinct(b, map(i));
        } else if b.contains(x) {
            let j = first_index(b, x);
            let m = if j < p { j } else { j - 1 };
            let i = if j == p { q } else if m < q { m } else { m + 1 };
            assert(map(i) == j);
            assert(a[i] == x);
            assert(a.contains(x));
        }
    }
}

} // verus!
