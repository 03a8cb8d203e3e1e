//! Pointwise analytic functions (exp, log, sin, cos, ...).
//!
//! Analytic functions have no exact meaning on machine integers, so no
//! evaluating algebra implements them here; the dimension-checking algebra
//! does, because their shape behaviour — every one of them is element-wise —
//! is exact.

use crate::dims::Dim4;
use crate::error::Error;
use crate::Check;
use vstd::prelude::*;

verus! {

/// Element-wise analytic functions.
pub trait AnalyticAlgebra<V> {
    /// Element-wise exponential `exp(x)`.
    fn exp(&mut self, v: &V) -> V;

    /// Element-wise natural logarithm `log(x)`.
    fn log(&mut self, v: &V) -> V;

    /// Element-wise natural logarithm shifted by one `log(1 + x)`.
    fn log1p(&mut self, v: &V) -> V;

    /// Element-wise sine `sin(x)`.
    fn sin(&mut self, v: &V) -> V;

    /// Element-wise cosine `cos(x)`.
    fn cos(&mut self, v: &V) -> V;

    /// Element-wise hyperbolic tangent `tanh(x)`.
    fn tanh(&mut self, v: &V) -> V;

    /// Element-wise sigmoid `1 / (1 + exp(-x))`.
    fn sigmoid(&mut self, v: &V) -> V;

    /// Element-wise reciprocal `1/x`.
    fn reciprocal(&mut self, v: &V) -> V;

    /// Element-wise square root `sqrt(x)`.
    fn sqrt(&mut self, v: &V) -> V;

    /// Element-wise division `x / y`.
    fn div(&mut self, v0: &V, v1: &V) -> Result<V, Error>;

    /// Element-wise power `x ^ p`.
    fn pow(&mut self, v0: &V, v1: &V) -> Result<V, Error>;
}

impl AnalyticAlgebra<()> for Check {
    fn exp(&mut self, v: &()) -> (r: ()) {
    }

    fn log(&mut self, v: &()) -> (r: ()) {
    }

    fn log1p(&mut self, v: &()) -> (r: ()) {
    }

    fn sin(&mut self, v: &()) -> (r: ()) {
    }

    fn cos(&mut self, v: &()) -> (r: ()) {
    }

    fn tanh(&mut self, v: &()) -> (r: ()) {
    }

    fn sigmoid(&mut self, v: &()) -> (r: ()) {
    }

    fn reciprocal(&mut self, v: &()) -> (r: ()) {
    }

    fn sqrt(&mut self, v: &()) -> (r: ()) {
    }

    fn div(&mut self, v0: &(), v1: &()) -> (r: Result<(), Error>)
        ensures
            r is Ok,
    {
        Ok(())
    }

    fn pow(&mut self, v0: &(), v1: &()) -> (r: Result<(), Error>)
        ensures
            r is Ok,
    {
        Ok(())
    }
}

impl AnalyticAlgebra<Dim4> for Check {
    fn exp(&mut self, v: &Dim4) -> (r: Dim4)
        ensures
            r == *v,
    {
        *v
    }

    fn log(&mut self, v: &Dim4) -> (r: Dim4)
        ensures
            r == *v,
    {
        *v
    }

    fn log1p(&mut self, v: &Dim4) -> (r: Dim4)
        ensures
            r == *v,
    {
        *v
    }

    fn sin(&mut self, v: &Dim4) -> (r: Dim4)
        ensures
            r == *v,
    {
        *v
    }

    fn cos(&mut self, v: &Dim4) -> (r: Dim4)
        ensures
            r == *v,
    {
        *v
    }

    fn tanh(&mut self, v: &Dim4) -> (r: Dim4)
        ensures
            r == *v,
    {
        *v
    }

    fn sigmoid(&mut self, v: &Dim4) -> (r: Dim4)
        ensures
            r == *v,
    {
        *v
    }

    fn reciprocal(&mut self, v: &Dim4) -> (r: Dim4)
        ensures
            r == *v,
    {
        *v
    }

    fn sqrt(&mut self, v: &Dim4) -> (r: Dim4)
        ensures
            r == *v,
    {
        *v
    }

    fn div(&mut self, v0: &Dim4, v1: &Dim4) -> (r: Result<Dim4, Error>)
        ensures
            *v0 == *v1 ==> r == Ok::<Dim4, Error>(*v0),
            *v0 != *v1 ==> r matches Err(Error::Dimensions { .. }),
    {
        crate::arith::check_two("div", v0, v1)
    }

    fn pow(&mut self, v0: &Dim4, v1: &Dim4) -> (r: Result<Dim4, Error>)
        ensures
            *v0 == *v1 ==> r == Ok::<Dim4, Error>(*v0),
            *v0 != *v1 ==> r matches Err(Error::Dimensions { .. }),
    {
        crate::arith::check_two("pow", v0, v1)
    }
}

} // verus!
