//! Key order of the replica's tile map: the standard order on coordinate
//! pairs is `coord_lt`.

use vstd::prelude::*;
use vstd::std_specs::cmp::OrdSpec;
use super::coord_lt;

verus! {

/// Coordinates that the tile map yields in increasing key order are
/// strictly increasing under `coord_lt`.
pub proof fn lemma_increasing_coords(s: Seq<(i32, i32)>)
    requires
        vstd::std_specs::btree::increasing_seq(s),
    ensures
        forall|i: int, j: int| 0 <= i < j < s.len() ==> coord_lt(#[trigger] s[i], #[trigger] s[j]),
{
    broadcast use {vstd::std_specs::btree::group_btree_axioms, vstd::laws_cmp::group_laws_cmp};

    assert(vstd::laws_cmp::obeys_cmp::<(i32, i32)>());
    assert forall|i: int, j: int| 0 <= i < j < s.len() implies coord_lt(#[trigger] s[i], #[trigger] s[j]) by {
        assert(s[i].cmp_spec(&s[j]) is Less);
    }
}

} // verus!
