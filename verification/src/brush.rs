//! Brush tips: square masks of half-float alpha bit patterns, looked up
//! by tip-local coordinates. The mask values themselves are computed
//! with floating point outside this crate and handed in whole.

use vstd::prelude::*;

verus! {

/// The largest tip edge: one tile.
pub const MAX_TIP_DIAMETER: u32 = 64;

/// `d` clamped to `[1, MAX_TIP_DIAMETER]`.
pub open spec fn clamped_diameter(d: u32) -> u32 {
    if d < 1 {
        1
    } else if d > 64 {
        64
    } else {
        d
    }
}

/// The tip edge a requested diameter gives: clamped to one tile.
pub fn clamp_diameter(d: u32) -> (r: u32)
    ensures
        r == clamped_diameter(d),
{
    if d < 1 {
        1
    } else if d > MAX_TIP_DIAMETER {
        MAX_TIP_DIAMETER
    } else {
        d
    }
}

/// A square brush-tip mask, row-major, `diameter * diameter` entries.
#[derive(Debug)]
pub struct BrushTip {
    diameter: u32,
    mask: Vec<u16>,
}

impl BrushTip {
    /// The edge length of the mask.
    pub closed spec fn edge(&self) -> u32 {
        self.diameter
    }

    /// The mask entries, row by row.
    pub closed spec fn mask(&self) -> Seq<u16> {
        self.mask@
    }

    /// The edge is within `[1, MAX_TIP_DIAMETER]` and the mask is square.
    pub closed spec fn wf(&self) -> bool {
        1 <= self.diameter <= 64 && self.mask@.len() == self.diameter * self.diameter
    }

    /// A tip from a row-major mask; `None` unless the edge is within
    /// `[1, MAX_TIP_DIAMETER]` and the mask has `diameter * diameter`
    /// entries.
    pub fn from_mask(diameter: u32, mask: Vec<u16>) -> (r: Option<BrushTip>)
        ensures
            r is Some <==> (1 <= diameter <= 64 && mask@.len() == diameter * diameter),
            r matches Some(t) ==> t.wf() && t.edge() == diameter && t.mask() == mask@,
    {
        if diameter < 1 || diameter > MAX_TIP_DIAMETER {
            return None;
        }
        assert(diameter * diameter <= 4096) by (nonlinear_arith)
            requires
                1 <= diameter <= 64,
        ;
        let n: u32 = diameter * diameter;
        if mask.len() != n as usize {
            return None;
        }
        Some(BrushTip { diameter, mask })
    }

    /// Edge length of the mask, in pixels.
    pub fn diameter(&self) -> (d: u32)
        ensures
            d == self.edge(),
    {
        self.diameter
    }

    /// Mask value at tip-local `(x, y)`; 0 outside the mask.
    pub fn sample(&self, x: u32, y: u32) -> (v: u16)
        requires
            self.wf(),
        ensures
            x < self.edge() && y < self.edge() ==> v == self.mask()[y * self.edge() + x],
            !(x < self.edge() && y < self.edge()) ==> v == 0,
    {
        if x >= self.diameter || y >= self.diameter {
            return 0;
        }
        proof {
            assert(y * self.diameter + x < self.diameter * self.diameter) by (nonlinear_arith)
                requires
                    x < self.diameter,
                    y < self.diameter,
            ;
            assert(self.diameter * self.diameter <= 4096) by (nonlinear_arith)
                requires
                    self.diameter <= 64,
            ;
        }
        let idx: u32 = y * self.diameter + x;
        self.mask[idx as usize]
    }
}

} // verus!
