//! Array-oriented comparison operations.

use crate::array::ArrayAlgebra;
use crate::compare::CompareAlgebra;
use crate::dims::Dim4;
use crate::error::check_reduced_dimensions;
use crate::error::is_reduction;
use crate::error::Error;
use crate::Check;
use vstd::prelude::*;

verus! {

/// Array-oriented comparison operations.
pub trait ArrayCompareAlgebra<V>: CompareAlgebra<V> + ArrayAlgebra<V> {
    /// Maxima over the axes summed away by reducing to the given shape.
    fn max_as(&mut self, v: &V, dims: Self::Dims) -> Result<V, Error>;

    /// The element-wise indicator of the maxima, normalized per reduced
    /// group.
    fn argmax_as(&mut self, v: &V, dims: Self::Dims) -> Result<V, Error>;

    /// Softmax over the axes reduced by the given shape.
    fn softmax_as(&mut self, v: &V, dims: Self::Dims) -> Result<V, Error>;
}

impl ArrayCompareAlgebra<Dim4> for Check {
    fn max_as(&mut self, v: &Dim4, dims: Dim4) -> (r: Result<Dim4, Error>)
        ensures
            is_reduction(*v, dims) ==> r == Ok::<Dim4, Error>(dims),
            !is_reduction(*v, dims) ==> r matches Err(Error::ReducedDimensions { .. }),
    {
        check_reduced_dimensions("max_as", *v, dims)
    }

    fn argmax_as(&mut self, v: &Dim4, dims: Dim4) -> (r: Result<Dim4, Error>)
        ensures
            is_reduction(*v, dims) ==> r == Ok::<Dim4, Error>(*v),
            !is_reduction(*v, dims) ==> r matches Err(Error::ReducedDimensions { .. }),
    {
        match check_reduced_dimensions("argmax_as", *v, dims) {
            Ok(_) => Ok(*v),
            Err(e) => Err(e),
        }
    }

    fn softmax_as(&mut self, v: &Dim4, dims: Dim4) -> (r: Result<Dim4, Error>)
        ensures
            is_reduction(*v, dims) ==> r == Ok::<Dim4, Error>(*v),
            !is_reduction(*v, dims) ==> r matches Err(Error::ReducedDimensions { .. }),
    {
        match check_reduced_dimensions("softmax_as", *v, dims) {
            Ok(_) => Ok(*v),
            Err(e) => Err(e),
        }
    }
}

} // verus!
