//! Pointwise arithmetic operations.

use crate::core_algebra::CoreAlgebra;
use crate::error::Error;
use crate::graph::Graph1;
use crate::graph::GraphN;
use crate::graph::Op;
use crate::graph::Value;
use crate::model;
use crate::model::ValueModel;
use crate::Check;
use crate::Eval;
use vstd::prelude::*;

verus! {

/// Element-wise arithmetic operations.
pub trait ArithAlgebra<V> {
    /// When `neg` may be called: its result must fit the machine range.
    spec fn neg_pre(&self, v: &V) -> bool;

    /// Element-wise zero (same dimensions as `v`).
    fn zeros(&mut self, v: &V) -> V;

    /// Element-wise one (same dimensions as `v`).
    fn ones(&mut self, v: &V) -> V;

    /// Element-wise negation `-v`.
    fn neg(&mut self, v: &V) -> V
        requires
            old(self).neg_pre(v),
    ;

    /// Element-wise subtraction `v0 - v1`.
    fn sub(&mut self, v0: &V, v1: &V) -> Result<V, Error>;

    /// Element-wise multiplication `v0 * v1`.
    fn mul(&mut self, v0: &V, v1: &V) -> Result<V, Error>;
}

impl ArithAlgebra<i32> for Eval {
    open spec fn neg_pre(&self, v: &i32) -> bool {
        model::in_i32(-*v)
    }

    fn zeros(&mut self, v: &i32) -> (r: i32)
        ensures
            r == 0,
    {
        0
    }

    fn ones(&mut self, v: &i32) -> (r: i32)
        ensures
            r == 1,
    {
        1
    }

    fn neg(&mut self, v: &i32) -> (r: i32)
        ensures
            r == -*v,
    {
        -*v
    }

    fn sub(&mut self, v0: &i32, v1: &i32) -> (r: Result<i32, Error>)
        ensures
            model::in_i32(*v0 - *v1) ==> (r matches Ok(s) && s == *v0 - *v1),
            !model::in_i32(*v0 - *v1) ==> r matches Err(Error::Overflow { .. }),
    {
        let s: i64 = (*v0 as i64) - (*v1 as i64);
        if s > (i32::MAX as i64) || s < (i32::MIN as i64) {
            Err(Error::overflow("sub"))
        } else {
            Ok(s as i32)
        }
    }

    fn mul(&mut self, v0: &i32, v1: &i32) -> (r: Result<i32, Error>)
        ensures
            model::in_i32(*v0 * *v1) ==> (r matches Ok(s) && s == *v0 * *v1),
            !model::in_i32(*v0 * *v1) ==> r matches Err(Error::Overflow { .. }),
    {
        proof {
            model::lemma_i32_product_fits(*v0 as int, *v1 as int);
        }
        let s: i64 = (*v0 as i64) * (*v1 as i64);
        if s > (i32::MAX as i64) || s < (i32::MIN as i64) {
            Err(Error::overflow("mul"))
        } else {
            Ok(s as i32)
        }
    }
}

impl ArithAlgebra<()> for Check {
    open spec fn neg_pre(&self, v: &()) -> bool {
        true
    }

    fn zeros(&mut self, v: &()) -> (r: ()) {
    }

    fn ones(&mut self, v: &()) -> (r: ()) {
    }

    fn neg(&mut self, v: &()) -> (r: ()) {
    }

    fn sub(&mut self, v0: &(), v1: &()) -> (r: Result<(), Error>)
        ensures
            r is Ok,
    {
        Ok(())
    }

    fn mul(&mut self, v0: &(), v1: &()) -> (r: Result<(), Error>)
        ensures
            r is Ok,
    {
        Ok(())
    }
}

impl ArithAlgebra<Value> for Graph1 {
    open spec fn neg_pre(&self, v: &Value) -> bool {
        model::in_i32(-v@.data)
    }

    fn zeros(&mut self, v: &Value) -> (r: Value)
        ensures
            final(self)@ == old(self)@,
            r@ == ValueModel::constant(0),
    {
        let z = self.eval().zeros(v.data());
        self.constant(z)
    }

    fn ones(&mut self, v: &Value) -> (r: Value)
        ensures
            final(self)@ == old(self)@,
            r@ == ValueModel::constant(1),
    {
        let o = self.eval().ones(v.data());
        self.constant(o)
    }

    fn neg(&mut self, v: &Value) -> (r: Value)
        ensures
            ({
                let opt = model::tape_neg(old(self)@, v@);
                opt matches Some((n2, vm)) && final(self)@ == n2 && r@ == vm
            }),
    {
        let data = self.eval().neg(v.data());
        self.make_node(data, Op::Neg(v.id()))
    }

    fn sub(&mut self, v0: &Value, v1: &Value) -> (r: Result<Value, Error>)
        ensures
            match model::tape_sub(old(self)@, v0@, v1@) {
                Some((n2, vm)) => final(self)@ == n2 && (r matches Ok(v) && v@ == vm),
                None => final(self)@ == old(self)@ && r matches Err(Error::Overflow { .. }),
            },
    {
        let data = match self.eval().sub(v0.data(), v1.data()) {
            Ok(d) => d,
            Err(e) => {
                return Err(e);
            },
        };
        Ok(self.make_node(data, Op::Sub(v0.id(), v1.id())))
    }

    fn mul(&mut self, v0: &Value, v1: &Value) -> (r: Result<Value, Error>)
        ensures
            match model::tape_mul(old(self)@, v0@, v1@) {
                Some((n2, vm)) => final(self)@ == n2 && (r matches Ok(v) && v@ == vm),
                None => final(self)@ == old(self)@ && r matches Err(Error::Overflow { .. }),
            },
    {
        let data = match self.eval().mul(v0.data(), v1.data()) {
            Ok(d) => d,
            Err(e) => {
                return Err(e);
            },
        };
        Ok(self.make_node(data, Op::Mul(*v0, *v1)))
    }
}

impl ArithAlgebra<Value> for GraphN {
    open spec fn neg_pre(&self, v: &Value) -> bool {
        model::in_i32(-v@.data)
    }

    fn zeros(&mut self, v: &Value) -> (r: Value)
        ensures
            final(self)@ == old(self)@,
            r@ == ValueModel::constant(0),
    {
        let z = self.eval().zeros(v.data());
        self.constant(z)
    }

    fn ones(&mut self, v: &Value) -> (r: Value)
        ensures
            final(self)@ == old(self)@,
            r@ == ValueModel::constant(1),
    {
        let o = self.eval().ones(v.data());
        self.constant(o)
    }

    fn neg(&mut self, v: &Value) -> (r: Value)
        ensures
            ({
                let opt = model::tape_neg(old(self)@, v@);
                opt matches Some((n2, vm)) && final(self)@ == n2 && r@ == vm
            }),
    {
        let data = self.eval().neg(v.data());
        self.make_node(data, Op::Neg(v.id()))
    }

    fn sub(&mut self, v0: &Value, v1: &Value) -> (r: Result<Value, Error>)
        ensures
            match model::tape_sub(old(self)@, v0@, v1@) {
                Some((n2, vm)) => final(self)@ == n2 && (r matches Ok(v) && v@ == vm),
                None => final(self)@ == old(self)@ && r matches Err(Error::Overflow { .. }),
            },
    {
        let data = match self.eval().sub(v0.data(), v1.data()) {
            Ok(d) => d,
            Err(e) => {
                return Err(e);
            },
        };
        Ok(self.make_node(data, Op::Sub(v0.id(), v1.id())))
    }

    fn mul(&mut self, v0: &Value, v1: &Value) -> (r: Result<Value, Error>)
        ensures
            match model::tape_mul(old(self)@, v0@, v1@) {
                Some((n2, vm)) => final(self)@ == n2 && (r matches Ok(v) && v@ == vm),
                None => final(self)@ == old(self)@ && r matches Err(Error::Overflow { .. }),
            },
    {
        let data = match self.eval().mul(v0.data(), v1.data()) {
            Ok(d) => d,
            Err(e) => {
                return Err(e);
            },
        };
        Ok(self.make_node(data, Op::Mul(*v0, *v1)))
    }
}


impl ArithAlgebra<crate::dims::Dim4> for Check {
    open spec fn neg_pre(&self, v: &crate::dims::Dim4) -> bool {
        true
    }

    fn zeros(&mut self, v: &crate::dims::Dim4) -> (r: crate::dims::Dim4)
        ensures
            r == *v,
    {
        *v
    }

    fn ones(&mut self, v: &crate::dims::Dim4) -> (r: crate::dims::Dim4)
        ensures
            r == *v,
    {
        *v
    }

    fn neg(&mut self, v: &crate::dims::Dim4) -> (r: crate::dims::Dim4)
        ensures
            r == *v,
    {
        *v
    }

    fn sub(&mut self, v0: &crate::dims::Dim4, v1: &crate::dims::Dim4) -> (r: Result<
        crate::dims::Dim4,
        Error,
    >)
        ensures
            *v0 == *v1 ==> r == Ok::<crate::dims::Dim4, Error>(*v0),
            *v0 != *v1 ==> r matches Err(Error::Dimensions { .. }),
    {
        check_two("sub", v0, v1)
    }

    fn mul(&mut self, v0: &crate::dims::Dim4, v1: &crate::dims::Dim4) -> (r: Result<
        crate::dims::Dim4,
        Error,
    >)
        ensures
            *v0 == *v1 ==> r == Ok::<crate::dims::Dim4, Error>(*v0),
            *v0 != *v1 ==> r matches Err(Error::Dimensions { .. }),
    {
        check_two("mul", v0, v1)
    }
}

/// Require two equal shapes, and return that shape.
pub(crate) fn check_two(name: &str, v0: &crate::dims::Dim4, v1: &crate::dims::Dim4) -> (r: Result<
    crate::dims::Dim4,
    Error,
>)
    ensures
        *v0 == *v1 ==> r == Ok::<crate::dims::Dim4, Error>(*v0),
        *v0 != *v1 ==> r matches Err(Error::Dimensions { .. }),
{
    if v0 == v1 {
        Ok(*v0)
    } else {
        let mut all: Vec<crate::dims::Dim4> = Vec::new();
        all.push(*v0);
        all.push(*v1);
        Err(Error::dimensions(name, all))
    }
}

} // verus!
