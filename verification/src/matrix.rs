//! Matrix operations such as multiplication and transposition.

use crate::dims::Dim4;
use crate::error::Error;
use crate::Check;
use vstd::prelude::*;

verus! {

/// Whether a matrix should be transposed and/or conjugated before applying
/// a matrix operation.
#[derive(Default, Debug, Copy, Clone, Eq, PartialEq, Structural)]
pub struct MatProp {
    pub transposed: bool,
    pub conjugated: bool,
}

impl MatProp {
    /// No transposition, no conjugation.
    pub fn new() -> (r: MatProp)
        ensures
            !r.transposed,
            !r.conjugated,
    {
        MatProp { transposed: false, conjugated: false }
    }

    /// Flip the transposition flag.
    pub fn transpose(self) -> (r: MatProp)
        ensures
            r.transposed == !self.transposed,
            r.conjugated == self.conjugated,
    {
        MatProp { transposed: !self.transposed, conjugated: self.conjugated }
    }

    /// Flip the conjugation flag.
    pub fn conjugate(self) -> (r: MatProp)
        ensures
            r.transposed == self.transposed,
            r.conjugated == !self.conjugated,
    {
        MatProp { transposed: self.transposed, conjugated: !self.conjugated }
    }
}

/// A shape describes a plain matrix when both batch axes are trivial, so it
/// can be transposed.
pub open spec fn is_matrix(v: Dim4) -> bool {
    v.dim(2) == 1 && v.dim(3) == 1
}

/// The shape of a matrix product, by the multiplication rule with optional
/// per-operand transposition and broadcast over batch axes; `None` when the
/// shapes are incompatible.
pub open spec fn matmul_dims(v1: Dim4, v2: Dim4, p1: MatProp, p2: MatProp) -> Option<
    (int, int, int, int),
> {
    if p1.transposed && !is_matrix(v1) {
        None
    } else if p2.transposed && !is_matrix(v2) {
        None
    } else {
        let r1 = if p1.transposed {
            v1.dim(1)
        } else {
            v1.dim(0)
        };
        let c1 = if p1.transposed {
            v1.dim(0)
        } else {
            v1.dim(1)
        };
        let r2 = if p2.transposed {
            v2.dim(1)
        } else {
            v2.dim(0)
        };
        let c2 = if p2.transposed {
            v2.dim(0)
        } else {
            v2.dim(1)
        };
        if c1 != r2 {
            None
        } else if v1.dim(2) == 1 && v1.dim(3) == 1 {
            Some((r1, c2, v2.dim(2), v2.dim(3)))
        } else if v2.dim(2) == 1 && v2.dim(3) == 1 {
            Some((r1, c2, v1.dim(2), v1.dim(3)))
        } else if v1.dim(2) == v2.dim(2) && v1.dim(3) == v2.dim(3) {
            Some((r1, c2, v1.dim(2), v1.dim(3)))
        } else {
            None
        }
    }
}

/// Matrix operations such as multiplication and transposition.
pub trait MatrixAlgebra<V> {
    /// Multiplication of two matrices after some optional transpositions.
    fn matmul(&mut self, v1: &V, v2: &V, prop1: MatProp, prop2: MatProp) -> Result<V, Error>;

    /// Transpose (and optionally conjugate) a matrix.
    fn transpose(&mut self, v: &V, conjugate: bool) -> Result<V, Error>;

    /// Non-transposed multiplication of two matrices.
    fn matmul_nn(&mut self, v1: &V, v2: &V) -> Result<V, Error>;
}

impl MatrixAlgebra<Dim4> for Check {
    fn matmul(&mut self, v1: &Dim4, v2: &Dim4, prop1: MatProp, prop2: MatProp) -> (r: Result<
        Dim4,
        Error,
    >)
        ensures
            match matmul_dims(*v1, *v2, prop1, prop2) {
                Some((a, b, c, d)) => r matches Ok(s) && s.dim(0) == a && s.dim(1) == b && s.dim(2)
                    == c && s.dim(3) == d,
                None => r matches Err(Error::Dimensions { .. }),
            },
    {
        let tv1 = if prop1.transposed {
            match self.transpose(v1, false) {
                Ok(t) => t,
                Err(e) => {
                    return Err(e);
                },
            }
        } else {
            *v1
        };
        let tv2 = if prop2.transposed {
            match self.transpose(v2, false) {
                Ok(t) => t,
                Err(e) => {
                    return Err(e);
                },
            }
        } else {
            *v2
        };
        if tv1.get(1) != tv2.get(0) {
            let mut dims: Vec<Dim4> = Vec::new();
            dims.push(*v1);
            dims.push(*v2);
            return Err(Error::dimensions("matmul", dims));
        }
        let (a, b) = (tv1.get(2), tv1.get(3));
        let (c, d) = (tv2.get(2), tv2.get(3));
        if a == 1 && b == 1 {
            Ok(crate::dims::from_extents(tv1.get(0), tv2.get(1), c, d))
        } else if c == 1 && d == 1 {
            Ok(crate::dims::from_extents(tv1.get(0), tv2.get(1), a, b))
        } else if a == c && b == d {
            Ok(crate::dims::from_extents(tv1.get(0), tv2.get(1), a, b))
        } else {
            let mut dims: Vec<Dim4> = Vec::new();
            dims.push(*v1);
            dims.push(*v2);
            Err(Error::dimensions("matmul", dims))
        }
    }

    fn transpose(&mut self, v: &Dim4, conjugate: bool) -> (r: Result<Dim4, Error>)
        ensures
            is_matrix(*v) ==> (r matches Ok(s) && s.dim(0) == v.dim(1) && s.dim(1) == v.dim(0)
                && s.dim(2) == 1 && s.dim(3) == 1),
            !is_matrix(*v) ==> r matches Err(Error::Dimensions { .. }),
    {
        if v.get(2) != 1 || v.get(3) != 1 {
            let mut dims: Vec<Dim4> = Vec::new();
            dims.push(*v);
            Err(Error::dimensions("transpose", dims))
        } else {
            Ok(crate::dims::from_extents(v.get(1), v.get(0), 1, 1))
        }
    }

    fn matmul_nn(&mut self, v1: &Dim4, v2: &Dim4) -> (r: Result<Dim4, Error>)
        ensures
            match matmul_dims(*v1, *v2, MatProp { transposed: false, conjugated: false },
                MatProp { transposed: false, conjugated: false },
            ) {
                Some((a, b, c, d)) => r matches Ok(s) && s.dim(0) == a && s.dim(1) == b && s.dim(2)
                    == c && s.dim(3) == d,
                None => r matches Err(Error::Dimensions { .. }),
            },
    {
        self.matmul(v1, v2, MatProp::new(), MatProp::new())
    }
}

} // verus!
