//! Generic reverse-mode automatic differentiation on a tape.
//!
//! Expressions are built by calling algebra operations; the operations record
//! one node per differentiable intermediate value on an append-only tape.
//! A later backward pass walks the tape in reverse allocation order and
//! accumulates the partial derivative of one output with respect to every
//! tracked input.
//!
//! The same formula can be interpreted four ways, by choosing the algebra it
//! runs against:
//! * [`Eval`] computes plain forward values;
//! * [`Check`] only checks dimensions;
//! * [`graph::Graph1`] records a tape for first-order gradients;
//! * [`graph::GraphN`] records a tape whose gradients are themselves tracked
//!   values, so they can be differentiated again.

use vstd::prelude::*;

pub mod analytic;
pub mod arith;
pub mod array;
pub mod array_compare;
pub mod compare;
pub mod const_arith;
pub mod core_algebra;
pub mod dims;
pub mod error;
pub mod graph;
pub mod laws;
pub mod linked;
pub mod matrix;
pub mod model;
pub mod store;

pub use crate::analytic::AnalyticAlgebra;
pub use crate::arith::ArithAlgebra;
pub use crate::array::ArrayAlgebra;
pub use crate::array_compare::ArrayCompareAlgebra;
pub use crate::compare::CompareAlgebra;
pub use crate::const_arith::ConstArithAlgebra;
pub use crate::core_algebra::CoreAlgebra;
pub use crate::core_algebra::HasDims;
pub use crate::dims::Dim4;
pub use crate::error::check_equal_dimensions;
pub use crate::error::check_equal_lengths;
pub use crate::error::check_reduced_dimensions;
pub use crate::error::Error;
pub use crate::graph::Graph1;
pub use crate::graph::GraphN;
pub use crate::graph::Node;
pub use crate::graph::Op;
pub use crate::graph::Value;
pub use crate::linked::LinkedAlgebra;
pub use crate::matrix::MatProp;
pub use crate::matrix::MatrixAlgebra;
pub use crate::store::EmptyGradientMap;
pub use crate::store::GenericGradientMap1;
pub use crate::store::GenericGradientMapN;
pub use crate::store::GradientId;
pub use crate::store::GradientReader;
pub use crate::store::GradientStore;
pub use crate::store::Id;

verus! {

/// The default algebra that only checks dimensions.
#[derive(Clone, Copy, Debug)]
pub struct Check;

/// The default algebra that only computes forward values.
#[derive(Clone, Copy, Debug)]
pub struct Eval {
    check: Check,
}

impl std::default::Default for Check {
    fn default() -> (r: Check)
        ensures
            r == (Check {  }),
    {
        Check {  }
    }
}

impl std::default::Default for Eval {
    fn default() -> (r: Eval) {
        Eval { check: Check {  } }
    }
}

impl Eval {
    /// Access the underlying dimension-checking algebra.
    pub fn check(&mut self) -> (r: &mut Check) {
        &mut self.check
    }
}

/// "Sealed" marker restricting which raw data types the default algebras
/// accept.
pub trait Reserved {}

impl Reserved for i8 {

}

impl Reserved for i16 {

}

impl Reserved for i32 {

}

impl Reserved for i64 {

}

/// Supported numbers for the default algebras.
pub trait Number: Reserved + Clone + Copy {}

impl Number for i8 {

}

impl Number for i16 {

}

impl Number for i32 {

}

impl Number for i64 {

}

} // verus!
