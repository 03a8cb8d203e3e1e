//! Shapes of array values.
//!
//! The dimension-checking algebra works on shapes alone, never on array data.
//! A shape has four axes; axes beyond the logical rank hold 1, so the number
//! of elements is always the product of the four extents.

use vstd::prelude::*;

verus! {

/// Largest extent of a single axis.
pub const MAX_DIM: u64 = 65535;

/// The shape of an array value: four axis extents, each at least 1.
///
/// Extents are stored narrow enough that the element count of any shape
/// fits in a `u64`, so no shape computation can overflow.
#[derive(Clone, Copy, Debug, PartialEq, Eq, Structural)]
pub struct Dim4 {
    e0: u16,
    e1: u16,
    e2: u16,
    e3: u16,
}

impl Dim4 {
    /// The extent of axis `i`, as recorded.
    pub closed spec fn dim(self, i: int) -> int {
        if i == 0 {
            self.e0 as int
        } else if i == 1 {
            self.e1 as int
        } else if i == 2 {
            self.e2 as int
        } else {
            self.e3 as int
        }
    }

    /// A shape is meaningful when every axis extent is at least 1.
    pub open spec fn wf(self) -> bool {
        forall|i: int| 0 <= i < 4 ==> #[trigger] self.dim(i) >= 1
    }

    /// The number of elements of an array of this shape.
    pub open spec fn count(self) -> int {
        self.dim(0) * self.dim(1) * self.dim(2) * self.dim(3)
    }

    /// Build a shape from four axis extents.
    pub fn new(dims: [u64; 4]) -> (r: Dim4)
        requires
            forall|i: int| 0 <= i < 4 ==> 1 <= #[trigger] dims[i] <= MAX_DIM,
        ensures
            forall|i: int| 0 <= i < 4 ==> #[trigger] r.dim(i) == dims[i],
            r.wf(),
    {
        let r = Dim4 {
            e0: dims[0] as u16,
            e1: dims[1] as u16,
            e2: dims[2] as u16,
            e3: dims[3] as u16,
        };
        proof {
            assert(r.dim(0) == dims[0] && r.dim(1) == dims[1] && r.dim(2) == dims[2] && r.dim(3)
                == dims[3]);
        }
        r
    }

    /// Read the extent of axis `i`.
    pub fn get(&self, i: usize) -> (r: u64)
        requires
            i < 4,
        ensures
            r == self.dim(i as int),
            r <= MAX_DIM,
    {
        if i == 0 {
            self.e0 as u64
        } else if i == 1 {
            self.e1 as u64
        } else if i == 2 {
            self.e2 as u64
        } else {
            self.e3 as u64
        }
    }

    /// The number of elements of an array of this shape.
    pub fn elements(&self) -> (r: u64)
        ensures
            r == self.count(),
    {
        proof {
            assert(0 <= self.dim(0) * self.dim(1) < 0x100000000 && 0 <= self.dim(0) * self.dim(1)
                * self.dim(2) < 0x1000000000000 && 0 <= self.dim(0) * self.dim(1) * self.dim(2)
                * self.dim(3) < 0x10000000000000000) by (nonlinear_arith)
                requires
                    0 <= self.dim(0) < 0x10000,
                    0 <= self.dim(1) < 0x10000,
                    0 <= self.dim(2) < 0x10000,
                    0 <= self.dim(3) < 0x10000,
            ;
        }
        (self.e0 as u64) * (self.e1 as u64) * (self.e2 as u64) * (self.e3 as u64)
    }
}

/// Build a shape from extents already known to fit one axis each; unlike
/// [`Dim4::new`] this accepts degenerate extents, so shape algebra on
/// arbitrary inputs can rebuild results without further checks.
pub(crate) fn from_extents(a: u64, b: u64, c: u64, d: u64) -> (r: Dim4)
    requires
        a <= MAX_DIM,
        b <= MAX_DIM,
        c <= MAX_DIM,
        d <= MAX_DIM,
    ensures
        r.dim(0) == a && r.dim(1) == b && r.dim(2) == c && r.dim(3) == d,
{
    Dim4 { e0: a as u16, e1: b as u16, e2: c as u16, e3: d as u16 }
}

} // verus!
