//! Array operations.
//!
//! Without an array backend, these operations are implemented by the
//! dimension-checking algebra, which works on shapes alone: it validates
//! exactly the shape rules each array operation would obey.

use crate::dims::Dim4;
use crate::dims::MAX_DIM;
use crate::error::is_reduction;
use crate::error::Error;
use crate::Check;
use vstd::prelude::*;

verus! {

/// Every axis of `v` divides the corresponding axis of `r`, so an array of
/// shape `v` can be tiled to shape `r`.
pub open spec fn tiles_into(v: Dim4, r: Dim4) -> bool {
    forall|i: int| 0 <= i < 4 ==> 1 <= #[trigger] v.dim(i) && r.dim(i) % v.dim(i) == 0
}

/// A one-element shape.
pub open spec fn is_scalar_shape(v: Dim4) -> bool {
    forall|i: int| 0 <= i < 4 ==> #[trigger] v.dim(i) == 1
}

/// Array operations.
pub trait ArrayAlgebra<V> {
    type Dims;

    type Scalar;

    /// When `flat` may be called: the flattened length must fit one axis.
    spec fn flat_pre(&self, v: &V) -> bool;

    /// Re-shape the input into a single-dimension array.
    fn flat(&mut self, v: &V) -> V
        requires
            old(self).flat_pre(v),
    ;

    /// Re-shape the input into an array of the given dimensions.
    fn moddims(&mut self, v: &V, dims: Self::Dims) -> Result<V, Error>;

    /// Repeat the input to match the given shape.
    fn tile_as(&mut self, v: &V, dims: Self::Dims) -> Result<V, Error>;

    /// Sum some of the axes of the input away to fit the given shape.
    fn sum_as(&mut self, v: &V, dims: Self::Dims) -> Result<V, Error>;

    /// Fill an array of the given shape with the given scalar value.
    fn constant_as(&mut self, v: &Self::Scalar, dims: Self::Dims) -> V;

    /// Read the scalar value in a one-element array.
    fn as_scalar(&mut self, v: &V) -> Result<Self::Scalar, Error>;

    /// Multiply the array element-wise by the given scalar.
    fn scale(&mut self, lambda: &Self::Scalar, v: &V) -> V;

    /// Compute the dot-product of two arrays of the same shape.
    fn dot(&mut self, v1: &V, v2: &V) -> Result<Self::Scalar, Error>;

    /// Compute the L2-norm of an array.
    fn norm2(&mut self, v: &V) -> Self::Scalar;
}

impl ArrayAlgebra<Dim4> for Check {
    type Dims = Dim4;

    type Scalar = ();

    open spec fn flat_pre(&self, v: &Dim4) -> bool {
        v.count() <= MAX_DIM
    }

    fn flat(&mut self, v: &Dim4) -> (r: Dim4)
        ensures
            r.dim(0) == v.count() && r.dim(1) == 1 && r.dim(2) == 1 && r.dim(3) == 1,
    {
        crate::dims::from_extents(v.elements(), 1, 1, 1)
    }

    fn moddims(&mut self, v: &Dim4, dims: Dim4) -> (r: Result<Dim4, Error>)
        ensures
            v.count() == dims.count() ==> r == Ok::<Dim4, Error>(dims),
            v.count() != dims.count() ==> r matches Err(Error::Dimensions { .. }),
    {
        if v.elements() != dims.elements() {
            let mut all: Vec<Dim4> = Vec::new();
            all.push(*v);
            all.push(dims);
            Err(Error::dimensions("moddims", all))
        } else {
            Ok(dims)
        }
    }

    fn tile_as(&mut self, v: &Dim4, dims: Dim4) -> (r: Result<Dim4, Error>)
        ensures
            tiles_into(*v, dims) ==> r == Ok::<Dim4, Error>(dims),
            !tiles_into(*v, dims) ==> r matches Err(Error::Dimensions { .. }),
    {
        let mut i: usize = 0;
        while i < 4
            invariant
                i <= 4,
                forall|j: int| 0 <= j < i ==> 1 <= #[trigger] v.dim(j) && dims.dim(j) % v.dim(j)
                    == 0,
            decreases 4 - i,
        {
            if v.get(i) == 0 || dims.get(i) % v.get(i) != 0 {
                let mut all: Vec<Dim4> = Vec::new();
                all.push(*v);
                all.push(dims);
                return Err(Error::dimensions("tile_as", all));
            }
            i = i + 1;
        }
        Ok(dims)
    }

    fn sum_as(&mut self, v: &Dim4, dims: Dim4) -> (r: Result<Dim4, Error>)
        ensures
            is_reduction(*v, dims) ==> r == Ok::<Dim4, Error>(dims),
            !is_reduction(*v, dims) ==> r matches Err(Error::Dimensions { .. }),
    {
        let mut i: usize = 0;
        while i < 4
            invariant
                i <= 4,
                forall|j: int| 0 <= j < i ==> #[trigger] dims.dim(j) == v.dim(j) || dims.dim(j)
                    == 1,
            decreases 4 - i,
        {
            if dims.get(i) != v.get(i) && dims.get(i) != 1 {
                let mut all: Vec<Dim4> = Vec::new();
                all.push(*v);
                all.push(dims);
                return Err(Error::dimensions("sum_as", all));
            }
            i = i + 1;
        }
        Ok(dims)
    }

    fn constant_as(&mut self, v: &(), dims: Dim4) -> (r: Dim4)
        ensures
            r == dims,
    {
        dims
    }

    fn as_scalar(&mut self, v: &Dim4) -> (r: Result<(), Error>)
        ensures
            is_scalar_shape(*v) ==> r is Ok,
            !is_scalar_shape(*v) ==> r matches Err(Error::Dimensions { .. }),
    {
        let mut i: usize = 0;
        while i < 4
            invariant
                i <= 4,
                forall|j: int| 0 <= j < i ==> #[trigger] v.dim(j) == 1,
            decreases 4 - i,
        {
            if v.get(i) != 1 {
                let mut all: Vec<Dim4> = Vec::new();
                all.push(*v);
                return Err(Error::dimensions("as_scalar", all));
            }
            i = i + 1;
        }
        Ok(())
    }

    fn scale(&mut self, lambda: &(), v: &Dim4) -> (r: Dim4)
        ensures
            r == *v,
    {
        *v
    }

    fn dot(&mut self, v1: &Dim4, v2: &Dim4) -> (r: Result<(), Error>)
        ensures
            *v1 == *v2 ==> r is Ok,
            *v1 != *v2 ==> r matches Err(Error::Dimensions { .. }),
    {
        if v1 == v2 {
            Ok(())
        } else {
            let mut all: Vec<Dim4> = Vec::new();
            all.push(*v1);
            all.push(*v2);
            Err(Error::dimensions("dot", all))
        }
    }

    fn norm2(&mut self, v: &Dim4) -> (r: ()) {
        match self.dot(v, v) {
            Ok(u) => u,
            Err(_) => vstd::pervasive::unreached(),
        }
    }
}

} // verus!
