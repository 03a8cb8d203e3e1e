//! Error and result types.
//!
//! Every failure is a typed, recoverable value. Each variant carries the name
//! of the failing operation and, for shape and length failures, the offending
//! shapes or lengths themselves.

use crate::dims::Dim4;
use vstd::prelude::*;

verus! {

/// Default error type for the crate.
#[derive(Clone, Debug)]
pub enum Error {
    /// Two or more shapes that had to be equal were not.
    Dimensions { name: String, dimensions: Vec<Dim4> },
    /// A shape reduction kept an axis that is neither the original extent nor 1.
    ReducedDimensions { name: String, dimensions: Dim4, reduced_dimensions: Dim4 },
    /// Two or more lengths that had to be equal were not.
    Lengths { name: String, lengths: Vec<usize> },
    /// An operation was given no operands.
    Empty { name: String },
    /// A handle was requested from a constant value.
    MissingId { name: String },
    /// The accumulation store held no gradient for a handle that needed one.
    MissingGradient { name: String },
    /// A node lookup failed; the handle does not belong to this tape.
    MissingNode { name: String },
    /// A computed value fell outside the machine integer range.
    Overflow { name: String },
}

impl Error {
    /// Report incompatible dimensions.
    pub fn dimensions(name: &str, dims: Vec<Dim4>) -> (r: Error)
        ensures
            r matches Error::Dimensions { name: n, dimensions: d } && n@ == name@ && d == dims,
    {
        Error::Dimensions { name: name.to_owned(), dimensions: dims }
    }

    /// Report an incorrect reduction of dimensions.
    pub fn reduced_dimensions(name: &str, dims: Dim4, rdims: Dim4) -> (r: Error)
        ensures
            r matches Error::ReducedDimensions { name: n, dimensions: d, reduced_dimensions: rd }
                && n@ == name@ && d == dims && rd == rdims,
    {
        Error::ReducedDimensions {
            name: name.to_owned(),
            dimensions: dims,
            reduced_dimensions: rdims,
        }
    }

    /// Report incompatible lengths.
    pub fn lengths(name: &str, lengths: Vec<usize>) -> (r: Error)
        ensures
            r matches Error::Lengths { name: n, lengths: l } && n@ == name@ && l == lengths,
    {
        Error::Lengths { name: name.to_owned(), lengths }
    }

    /// Report an empty input.
    pub fn empty(name: &str) -> (r: Error)
        ensures
            r matches Error::Empty { name: n } && n@ == name@,
    {
        Error::Empty { name: name.to_owned() }
    }

    /// Report a missing id.
    pub fn missing_id(name: &str) -> (r: Error)
        ensures
            r matches Error::MissingId { name: n } && n@ == name@,
    {
        Error::MissingId { name: name.to_owned() }
    }

    /// Report a missing gradient.
    pub fn missing_gradient(name: &str) -> (r: Error)
        ensures
            r matches Error::MissingGradient { name: n } && n@ == name@,
    {
        Error::MissingGradient { name: name.to_owned() }
    }

    /// Report a missing node.
    pub fn missing_node(name: &str) -> (r: Error)
        ensures
            r matches Error::MissingNode { name: n } && n@ == name@,
    {
        Error::MissingNode { name: name.to_owned() }
    }

    /// Report a result outside the machine integer range.
    pub fn overflow(name: &str) -> (r: Error)
        ensures
            r matches Error::Overflow { name: n } && n@ == name@,
    {
        Error::Overflow { name: name.to_owned() }
    }
}

/// Check that all the given dimensions are equal, and return that shape.
pub fn check_equal_dimensions(name: &str, dims: &[&Dim4]) -> (r: Result<Dim4, Error>)
    ensures
        dims@.len() == 0 ==> r matches Err(Error::Empty { .. }),
        dims@.len() > 0 && (forall|i: int| 0 <= i < dims@.len() ==> *#[trigger] dims@[i]
            == *dims@[0]) ==> r == Ok::<Dim4, Error>(*dims@[0]),
        dims@.len() > 0 && !(forall|i: int| 0 <= i < dims@.len() ==> *#[trigger] dims@[i]
            == *dims@[0]) ==> r matches Err(Error::Dimensions { .. }),
{
    if dims.len() == 0 {
        return Err(Error::empty(name));
    }
    let first = *dims[0];
    let mut i: usize = 1;
    while i < dims.len()
        invariant
            1 <= i <= dims@.len(),
            forall|j: int| 0 <= j < i ==> *#[trigger] dims@[j] == *dims@[0],
            first == *dims@[0],
        decreases dims@.len() - i,
    {
        if *dims[i] != first {
            let mut all: Vec<Dim4> = Vec::new();
            let mut k: usize = 0;
            while k < dims.len()
                invariant
                    k <= dims@.len(),
                decreases dims@.len() - k,
            {
                all.push(*dims[k]);
                k = k + 1;
            }
            return Err(Error::dimensions(name, all));
        }
        i = i + 1;
    }
    Ok(first)
}

/// Check that all the given lengths are equal, and return that length.
pub fn check_equal_lengths(name: &str, lengths: &[usize]) -> (r: Result<usize, Error>)
    ensures
        lengths@.len() == 0 ==> r matches Err(Error::Empty { .. }),
        lengths@.len() > 0 && (forall|i: int| 0 <= i < lengths@.len() ==> #[trigger] lengths@[i]
            == lengths@[0]) ==> r == Ok::<usize, Error>(lengths@[0]),
        lengths@.len() > 0 && !(forall|i: int| 0 <= i < lengths@.len() ==> #[trigger] lengths@[i]
            == lengths@[0]) ==> r matches Err(Error::Lengths { .. }),
{
    if lengths.len() == 0 {
        return Err(Error::empty(name));
    }
    let first = lengths[0];
    let mut i: usize = 1;
    while i < lengths.len()
        invariant
            1 <= i <= lengths@.len(),
            forall|j: int| 0 <= j < i ==> #[trigger] lengths@[j] == lengths@[0],
            first == lengths@[0],
        decreases lengths@.len() - i,
    {
        if lengths[i] != first {
            let mut all: Vec<usize> = Vec::new();
            let mut k: usize = 0;
            while k < lengths.len()
                invariant
                    k <= lengths@.len(),
                decreases lengths@.len() - k,
            {
                all.push(lengths[k]);
                k = k + 1;
            }
            return Err(Error::lengths(name, all));
        }
        i = i + 1;
    }
    Ok(first)
}

/// Holds when `rdims` is a valid reduction of `dims`: on every axis the
/// reduced extent either equals the original extent or is 1.
pub open spec fn is_reduction(dims: Dim4, rdims: Dim4) -> bool {
    forall|i: int| 0 <= i < 4 ==> #[trigger] rdims.dim(i) == dims.dim(i) || rdims.dim(i) == 1
}

/// Check that `dims` can be reduced to `rdims` by summing whole axes away.
pub fn check_reduced_dimensions(name: &str, dims: Dim4, rdims: Dim4) -> (r: Result<Dim4, Error>)
    ensures
        is_reduction(dims, rdims) ==> r == Ok::<Dim4, Error>(rdims),
        !is_reduction(dims, rdims) ==> r matches Err(Error::ReducedDimensions { .. }),
{
    let mut i: usize = 0;
    while i < 4
        invariant
            i <= 4,
            forall|j: int| 0 <= j < i ==> #[trigger] rdims.dim(j) == dims.dim(j) || rdims.dim(j)
                == 1,
        decreases 4 - i,
    {
        if rdims.get(i) != dims.get(i) && rdims.get(i) != 1 {
            return Err(Error::reduced_dimensions(name, dims, rdims));
        }
        i = i + 1;
    }
    Ok(rdims)
}

} // verus!
