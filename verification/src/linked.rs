//! How a backward rule references the forward values it captured.
//!
//! A backward formula needs a reference to an operand's forward value.
//! Against the plain forward algebra, that reference is the raw data;
//! against another tape, the operand must stay a tracked value so higher
//! derivatives can still reach it. `link` lets one backward formula serve
//! both cases unchanged.

use crate::graph::Graph1;
use crate::graph::GraphN;
use crate::graph::Value;
use crate::Eval;
use vstd::prelude::*;

verus! {

/// How to reference values from another algebra. This is needed for
/// higher-order differentials in order to propagate gradients all the way
/// to the initial variables.
pub trait LinkedAlgebra<S, T> {
    fn link<'a>(&mut self, value: &'a S) -> &'a T;
}

impl LinkedAlgebra<Value, i32> for Eval {
    /// Unwrap a tracked value straight to its raw data: ordinary
    /// first-order backward formulas run against the plain forward algebra.
    fn link<'a>(&mut self, value: &'a Value) -> (r: &'a i32)
        ensures
            *r == value@.data,
    {
        value.data()
    }
}

impl LinkedAlgebra<Value, Value> for Graph1 {
    /// Return the tracked value unchanged: the rule runs against a tape.
    fn link<'a>(&mut self, value: &'a Value) -> (r: &'a Value)
        ensures
            r == value,
    {
        value
    }
}

impl LinkedAlgebra<Value, Value> for GraphN {
    /// Return the tracked value unchanged: the rule runs against a tape, so
    /// the operand stays differentiable.
    fn link<'a>(&mut self, value: &'a Value) -> (r: &'a Value)
        ensures
            r == value,
    {
        value
    }
}

} // verus!
