//! Non-destructive, branching undo graph.
//!
//! Revisions are stored append-only; every non-root revision has exactly
//! one parent with a strictly smaller id, so the graph is a tree rooted at
//! `RevId::spec_root()` and ancestry walks always terminate.

use vstd::prelude::*;

verus! {

/// Opaque revision identifier: dense, starting at `0` for the root,
/// assigned sequentially by `UndoGraph::commit`.
#[derive(Debug, Clone, Copy, PartialEq, Eq, PartialOrd, Ord, Hash, Structural)]
pub struct RevId(pub u32);

impl RevId {
    /// The root revision of every `UndoGraph`: always `RevId(0)`.
    pub open spec fn spec_root() -> RevId {
        RevId(0)
    }

    /// The root revision of every `UndoGraph`: always `RevId(0)`.
    pub fn root() -> (r: RevId)
        ensures
            r == RevId(0),
    {
        RevId(0)
    }

    /// The underlying `u32`.
    pub fn as_u32(self) -> (r: u32)
        ensures
            r == self.0,
    {
        self.0
    }

    /// Human-readable rendering, `r<id>` (for example `r42`).
    pub fn to_display_string(self) -> (s: String)
        ensures
            s@ == seq!['r'] + crate::text::decimal(self.0 as nat),
    {
        let mut s = String::new();
        s.push('r');
        let d = crate::text::u64_to_decimal(self.0 as u64);
        s.append(d.as_str());
        s
    }
}

/// A persistent, branching revision graph holding one value per revision.
pub struct UndoGraph<T> {
    parents: Vec<Option<RevId>>,
    values: Vec<T>,
    children: Vec<Vec<RevId>>,
}

impl<T> UndoGraph<T> {
    /// Number of revisions, as a mathematical integer.
    pub closed spec fn spec_len(&self) -> nat {
        self.parents@.len()
    }

    /// Parent of revision `i` (`None` for the root and for unknown ids).
    pub closed spec fn spec_parent(&self, i: int) -> Option<RevId> {
        if 0 <= i < self.parents@.len() {
            self.parents@[i]
        } else {
            None
        }
    }

    /// Value stored at revision `i` (meaningful only for known ids).
    pub closed spec fn spec_value(&self, i: int) -> T {
        self.values@[i]
    }

    /// Children of revision `i`, in commit order (empty for unknown ids).
    pub closed spec fn spec_children(&self, i: int) -> Seq<RevId> {
        if 0 <= i < self.children@.len() {
            self.children@[i]@
        } else {
            Seq::empty()
        }
    }

    /// Well-formedness: parallel arrays, a parentless root, parents with
    /// strictly smaller ids, and child lists that list exactly the
    /// revisions pointing at each node, in increasing order.
    pub closed spec fn wf(&self) -> bool {
        &&& self.parents@.len() >= 1
        &&& self.values@.len() == self.parents@.len()
        &&& self.children@.len() == self.parents@.len()
        &&& self.parents@.len() <= u32::MAX as nat + 1
        &&& self.parents@[0] is None
        &&& forall|i: int|
            0 < i < self.parents@.len() ==> (#[trigger] self.parents@[i] matches Some(p) && (p.0 as int) < i)
        &&& forall|p: int, k: int|
            0 <= p < self.children@.len() && 0 <= k < self.children@[p]@.len() ==> {
                let c = #[trigger] self.children@[p]@[k];
                &&& (c.0 as int) < self.parents@.len()
                &&& self.parents@[c.0 as int] == Some(RevId(p as u32))
            }
        &&& forall|p: int, k1: int, k2: int|
            0 <= p < self.children@.len() && 0 <= k1 < k2 < self.children@[p]@.len() ==> (
            #[trigger] self.children@[p]@[k1]).0 < (#[trigger] self.children@[p]@[k2]).0
        &&& forall|c: int|
            0 < c < self.parents@.len() ==> #[trigger] self.children@[(self.parents@[c]->0).0 as int]@.contains(
                RevId(c as u32),
            )
    }

    /// `a` lies on the parent chain from `d` to the root (inclusive).
    pub closed spec fn spec_is_ancestor(&self, a: int, d: int) -> bool
        decreases d,
    {
        if !(0 <= d < self.spec_len()) || !(0 <= a < self.spec_len()) {
            false
        } else if a == d {
            true
        } else {
            match self.spec_parent(d) {
                Some(p) => if (p.0 as int) < d {
                    self.spec_is_ancestor(a, p.0 as int)
                } else {
                    false
                },
                None => false,
            }
        }
    }

    /// The two graphs hold the same revisions: as many, with the same
    /// value, parent and children at every id.
    pub open spec fn same_graph(g1: &Self, g2: &Self) -> bool {
        &&& g1.spec_len() == g2.spec_len()
        &&& forall|i: int| #[trigger] g1.spec_parent(i) == g2.spec_parent(i)
        &&& forall|i: int| #[trigger] g1.spec_children(i) == g2.spec_children(i)
        &&& forall|i: int| 0 <= i < g1.spec_len() ==> #[trigger] g1.spec_value(i) == g2.spec_value(i)
    }

    /// `after` is `before` with revision `r`, a child of `parent` (or of
    /// the root, for an unknown `parent`) carrying `value`, appended.
    pub open spec fn committed(before: &Self, after: &Self, parent: RevId, value: T, r: RevId) -> bool {
        let p = if (parent.0 as nat) < before.spec_len() { parent } else { RevId::spec_root() };
        &&& after.wf()
        &&& r.0 as nat == before.spec_len()
        &&& after.spec_len() == before.spec_len() + 1
        &&& after.spec_value(r.0 as int) == value
        &&& after.spec_parent(r.0 as int) == Some(p)
        &&& forall|i: int|
            0 <= i < before.spec_len() ==> after.spec_value(i) == before.spec_value(i)
                && after.spec_parent(i) == before.spec_parent(i)
        &&& forall|i: int|
            0 <= i < before.spec_len() ==> #[trigger] after.spec_children(i) == if i == p.0 as int {
                before.spec_children(i).push(r)
            } else {
                before.spec_children(i)
            }
        &&& after.spec_children(r.0 as int) == Seq::<RevId>::empty()
    }

    /// Create a new graph whose root revision carries `root`.
    pub fn new(root: T) -> (g: Self)
        ensures
            g.wf(),
            g.spec_len() == 1,
            g.spec_value(0) == root,
            g.spec_parent(0) is None,
            g.spec_children(0) == Seq::<RevId>::empty(),
    {
        let mut parents = Vec::new();
        parents.push(None);
        let mut values = Vec::new();
        values.push(root);
        let mut children: Vec<Vec<RevId>> = Vec::new();
        children.push(Vec::new());
        UndoGraph { parents, values, children }
    }

    /// Append a child of `parent` carrying `value`; returns the new id.
    /// An unknown `parent` falls back to the root.
    pub fn commit(&mut self, parent: RevId, value: T) -> (r: RevId)
        requires
            old(self).wf(),
            old(self).spec_len() <= u32::MAX as nat,
        ensures
            final(self).wf(),
            r.0 as nat == old(self).spec_len(),
            final(self).spec_len() == old(self).spec_len() + 1,
            final(self).spec_value(r.0 as int) == value,
            final(self).spec_parent(r.0 as int) == Some(
                if (parent.0 as nat) < old(self).spec_len() { parent } else { RevId::spec_root() },
            ),
            forall|i: int|
                0 <= i < old(self).spec_len() ==> final(self).spec_value(i) == old(self).spec_value(i)
                    && final(self).spec_parent(i) == old(self).spec_parent(i),
            forall|i: int|
                0 <= i < old(self).spec_len() ==> #[trigger] final(self).spec_children(i) == if i
                    == (if (parent.0 as nat) < old(self).spec_len() { parent.0 as int } else { 0 }) {
                    old(self).spec_children(i).push(r)
                } else {
                    old(self).spec_children(i)
                },
            final(self).spec_children(r.0 as int) == Seq::<RevId>::empty(),
            Self::committed(&*old(self), &*final(self), parent, value, r),
    {
        let len = self.parents.len();
        let effective_parent = if (parent.0 as usize) < len {
            parent
        } else {
            RevId::root()
        };
        let new_id = RevId(len as u32);
        let ghost old_self = *old(self);
        self.parents.push(Some(effective_parent));
        self.values.push(value);
        self.children.push(Vec::new());
        let p_idx = effective_parent.0 as usize;
        let mut kids: Vec<RevId> = Vec::new();
        std::mem::swap(&mut self.children[p_idx], &mut kids);
        kids.push(new_id);
        self.children.set(p_idx, kids);
        proof {
            assert forall|c: int| 0 < c < self.parents@.len() implies #[trigger] self.children@[(
            self.parents@[c]->0).0 as int]@.contains(RevId(c as u32)) by {
                if c == len as int {
                    assert(self.children@[p_idx as int]@.last() == RevId(c as u32));
                } else {
                    let q = (old_self.parents@[c]->0).0 as int;
                    assert(old_self.children@[q]@.contains(RevId(c as u32)));
                    let k = choose|k: int| 0 <= k < old_self.children@[q]@.len() && old_self.children@[q]@[k] == RevId(c as u32);
                    assert(self.children@[q]@[k] == RevId(c as u32));
                }
            }
        }
        new_id
    }

    /// Alias of `commit`: starts a new branch from `parent`.
    pub fn branch(&mut self, parent: RevId, value: T) -> (r: RevId)
        requires
            old(self).wf(),
            old(self).spec_len() <= u32::MAX as nat,
        ensures
            final(self).wf(),
            r.0 as nat == old(self).spec_len(),
            final(self).spec_len() == old(self).spec_len() + 1,
            final(self).spec_value(r.0 as int) == value,
            final(self).spec_parent(r.0 as int) == Some(
                if (parent.0 as nat) < old(self).spec_len() { parent } else { RevId::spec_root() },
            ),
            forall|i: int|
                0 <= i < old(self).spec_len() ==> final(self).spec_value(i) == old(self).spec_value(i)
                    && final(self).spec_parent(i) == old(self).spec_parent(i),
            forall|i: int|
                0 <= i < old(self).spec_len() ==> #[trigger] final(self).spec_children(i) == if i
                    == (if (parent.0 as nat) < old(self).spec_len() { parent.0 as int } else { 0 }) {
                    old(self).spec_children(i).push(r)
                } else {
                    old(self).spec_children(i)
                },
            final(self).spec_children(r.0 as int) == Seq::<RevId>::empty(),
            Self::committed(&*old(self), &*final(self), parent, value, r),
    {
        self.commit(parent, value)
    }

    /// Read-only access to the value at `rev`; `None` for unknown ids.
    pub fn checkout(&self, rev: RevId) -> (r: Option<&T>)
        requires
            self.wf(),
        ensures
            (rev.0 as nat) < self.spec_len() ==> r == Some(&self.spec_value(rev.0 as int)),
            (rev.0 as nat) >= self.spec_len() ==> r is None,
    {
        if (rev.0 as usize) < self.values.len() {
            Some(&self.values[rev.0 as usize])
        } else {
            None
        }
    }

    /// The parent of `rev`, or `None` for the root and unknown ids.
    pub fn parent_of(&self, rev: RevId) -> (r: Option<RevId>)
        requires
            self.wf(),
        ensures
            r == self.spec_parent(rev.0 as int),
            rev.0 == 0 ==> r is None,
            0 < (rev.0 as nat) < self.spec_len() ==> (r matches Some(p) && p.0 < rev.0),
            (rev.0 as nat) >= self.spec_len() ==> r is None,
    {
        if (rev.0 as usize) < self.parents.len() {
            self.parents[rev.0 as usize]
        } else {
            None
        }
    }

    /// The children of `rev` in commit order; empty for unknown ids.
    pub fn children_of(&self, rev: RevId) -> (r: &[RevId])
        requires
            self.wf(),
        ensures
            r@ == self.spec_children(rev.0 as int),
            (rev.0 as nat) >= self.spec_len() ==> r@.len() == 0,
            forall|k: int| 0 <= k < r@.len() ==> #[trigger] self.spec_parent(r@[k].0 as int) == Some(rev),
    {
        if (rev.0 as usize) < self.children.len() {
            self.children[rev.0 as usize].as_slice()
        } else {
            &[]
        }
    }

    /// Total number of revisions (including the root).
    pub fn len(&self) -> (n: usize)
        requires
            self.wf(),
        ensures
            n as nat == self.spec_len(),
    {
        self.parents.len()
    }

    /// `true` iff the graph holds no revision (never the case for a
    /// well-formed graph).
    pub fn is_empty(&self) -> (b: bool)
        requires
            self.wf(),
        ensures
            b == (self.spec_len() == 0),
            !b,
    {
        self.parents.len() == 0
    }

    /// `true` iff `ancestor` lies on the path from `descendant` to the
    /// root (every revision is its own ancestor); `false` for unknown ids.
    pub fn is_ancestor(&self, ancestor: RevId, descendant: RevId) -> (b: bool)
        requires
            self.wf(),
        ensures
            b == self.spec_is_ancestor(ancestor.0 as int, descendant.0 as int),
            (ancestor.0 as nat) >= self.spec_len() || (descendant.0 as nat) >= self.spec_len() ==> !b,
            ancestor.0 > descendant.0 ==> !b,
            ancestor == descendant && (ancestor.0 as nat) < self.spec_len() ==> b,
            (ancestor.0 as nat) < self.spec_len() && (descendant.0 as nat) < self.spec_len()
                && ancestor != descendant ==> b == (self.spec_parent(descendant.0 as int) matches Some(p)
                && self.spec_is_ancestor(ancestor.0 as int, p.0 as int)),
    {
        proof {
            self.lemma_ancestor_le(ancestor.0 as int, descendant.0 as int);
            self.lemma_structure();
        }
        let len = self.parents.len();
        if (ancestor.0 as usize) >= len || (descendant.0 as usize) >= len {
            return false;
        }
        if ancestor.0 > descendant.0 {
            proof {
                self.lemma_ancestor_le(ancestor.0 as int, descendant.0 as int);
            }
            return false;
        }
        let mut cursor = descendant;
        loop
            invariant
                self.wf(),
                len == self.spec_len(),
                (cursor.0 as nat) < self.spec_len(),
                (ancestor.0 as nat) < self.spec_len(),
                ancestor.0 <= descendant.0,
                self.spec_is_ancestor(ancestor.0 as int, descendant.0 as int) == self.spec_is_ancestor(
                    ancestor.0 as int,
                    cursor.0 as int,
                ),
            decreases cursor.0,
        {
            if cursor.0 == ancestor.0 {
                return true;
            }
            match self.parents[cursor.0 as usize] {
                Some(p) => {
                    cursor = p;
                },
                None => {
                    return false;
                },
            }
        }
    }

    /// The shape every well-formed graph has: a parentless root, every
    /// other known revision pointing at a parent with a smaller id, and no
    /// parent, children or ancestry for unknown ids.
    pub proof fn lemma_structure(&self)
        requires
            self.wf(),
        ensures
            self.spec_len() >= 1,
            self.spec_parent(0) is None,
            forall|i: int|
                0 < i < self.spec_len() ==> (#[trigger] self.spec_parent(i) matches Some(p) && (p.0 as int)
                    < i),
            forall|i: int| !(0 <= i < self.spec_len()) ==> #[trigger] self.spec_parent(i) is None,
            forall|i: int| !(0 <= i < self.spec_len()) ==> #[trigger] self.spec_children(i) == Seq::<RevId>::empty(),
            forall|a: int, d: int|
                !(0 <= a < self.spec_len() && 0 <= d < self.spec_len()) ==> !#[trigger] self.spec_is_ancestor(
                    a,
                    d,
                ),
            forall|a: int| 0 <= a < self.spec_len() ==> #[trigger] self.spec_is_ancestor(a, a),
    {
        assert forall|i: int| 0 < i < self.spec_len() implies (#[trigger] self.spec_parent(i) matches Some(p) && (
        p.0 as int) < i) by {
            assert(self.parents@[i] matches Some(p) && (p.0 as int) < i);
        }
    }

    /// `branch` is `commit`: on two equal graphs, branching one and
    /// committing the other with the same parent and value gives the same
    /// id and leaves equal graphs.
    pub proof fn law_branch_is_commit(
        before1: &Self,
        after1: &Self,
        r1: RevId,
        before2: &Self,
        after2: &Self,
        r2: RevId,
        parent: RevId,
        value: T,
    )
        requires
            before1.wf(),
            before2.wf(),
            Self::same_graph(before1, before2),
            Self::committed(before1, after1, parent, value, r1),
            Self::committed(before2, after2, parent, value, r2),
        ensures
            r1 == r2,
            Self::same_graph(after1, after2),
    {
        after1.lemma_structure();
        after2.lemma_structure();
        before1.lemma_structure();
        let n = before1.spec_len() as int;
        assert forall|i: int| #[trigger] after1.spec_parent(i) == after2.spec_parent(i) by {
            if 0 <= i < n {
                assert(before1.spec_parent(i) == before2.spec_parent(i));
            }
        }
        assert forall|i: int| #[trigger] after1.spec_children(i) == after2.spec_children(i) by {
            if 0 <= i < n {
                assert(before1.spec_children(i) == before2.spec_children(i));
            }
        }
        assert forall|i: int| 0 <= i < after1.spec_len() implies #[trigger] after1.spec_value(i)
            == after2.spec_value(i) by {
            if i < n {
                assert(before1.spec_value(i) == before2.spec_value(i));
            }
        }
    }

    /// An ancestor never has a larger id than its descendant.
    pub proof fn lemma_ancestor_le(&self, a: int, d: int)
        requires
            self.wf(),
        ensures
            self.spec_is_ancestor(a, d) ==> a <= d,
        decreases d,
    {
        if 0 <= d < self.spec_len() && 0 <= a < self.spec_len() && a != d {
            if let Some(p) = self.spec_parent(d) {
                if (p.0 as int) < d {
                    self.lemma_ancestor_le(a, p.0 as int);
                }
            }
        }
    }

    /// Every known revision descends from the root: the parent chain of
    /// any revision reaches `RevId(0)` in finitely many steps.
    pub proof fn lemma_root_is_ancestor(&self, d: int)
        requires
            self.wf(),
            0 <= d < self.spec_len(),
        ensures
            self.spec_is_ancestor(0, d),
        decreases d,
    {
        if d != 0 {
            let p = self.parents@[d]->0;
            self.lemma_root_is_ancestor(p.0 as int);
        }
    }

    /// Ancestry is reflexive on known revisions and antisymmetric.
    pub proof fn lemma_ancestor_partial_order(&self, a: int, b: int)
        requires
            self.wf(),
        ensures
            0 <= a < self.spec_len() ==> self.spec_is_ancestor(a, a),
            self.spec_is_ancestor(a, b) && self.spec_is_ancestor(b, a) ==> a == b,
    {
        self.lemma_ancestor_le(a, b);
        self.lemma_ancestor_le(b, a);
    }

    /// Ancestry among existing revisions is unchanged by growth: if `later`
    /// keeps every parent edge of `earlier` (as `commit` does), the two
    /// graphs agree on `is_ancestor` for every pair of old revisions.
    pub proof fn lemma_ancestry_stable(earlier: &Self, later: &Self, a: int, d: int)
        requires
            earlier.wf(),
            later.wf(),
            earlier.spec_len() <= later.spec_len(),
            forall|i: int| 0 <= i < earlier.spec_len() ==> later.spec_parent(i) == earlier.spec_parent(i),
            0 <= a < earlier.spec_len(),
            0 <= d < earlier.spec_len(),
        ensures
            earlier.spec_is_ancestor(a, d) == later.spec_is_ancestor(a, d),
        decreases d,
    {
        if a != d && d != 0 {
            let p = earlier.parents@[d]->0;
            assert(later.spec_parent(d) == earlier.spec_parent(d));
            Self::lemma_ancestry_stable(earlier, later, a, p.0 as int);
        }
    }
}

} // verus!
