//! Pointwise comparison operations.

use crate::arith::ArithAlgebra;
use crate::core_algebra::CoreAlgebra;
use crate::error::Error;
use crate::graph::Graph1;
use crate::graph::GraphN;
use crate::graph::Op;
use crate::graph::Value;
use crate::model;
use crate::model::ValueModel;
use crate::Check;
use crate::Eval;
use vstd::prelude::*;

verus! {

/// The model of an optional selection branch.
pub open spec fn branch_model(r: Option<&Value>) -> Option<ValueModel> {
    match r {
        Some(v) => Some(v@),
        None => None,
    }
}

/// Element-wise comparison operations.
pub trait CompareAlgebra<V> {
    /// When `abs` may be called: the negated value must fit the machine
    /// range.
    spec fn abs_pre(&self, v: &V) -> bool;

    /// Element-wise minimum `min(v0, v1)`.
    fn min(&mut self, v0: &V, v1: &V) -> Result<V, Error>;

    /// Element-wise maximum `max(v0, v1)`.
    fn max(&mut self, v0: &V, v1: &V) -> Result<V, Error>;

    /// Element-wise absolute value `|v|`.
    fn abs(&mut self, v: &V) -> V
        requires
            old(self).abs_pre(v),
    ;

    /// Element-wise sign value `sign(v)`: 1 where `v >= 0`, else -1.
    fn sign(&mut self, v: &V) -> V;

    /// Element-wise value `relu(v) = max(v, 0)`.
    fn relu(&mut self, v: &V) -> V;

    /// Element-wise selection by comparison: `if v0 >= v1 then r0 else r1`.
    /// Absent branch arguments are taken as zeroes.
    fn select_argmax(&mut self, v0: &V, v1: &V, r0: Option<&V>, r1: Option<&V>) -> Result<V, Error>;
}

impl CompareAlgebra<i32> for Eval {
    open spec fn abs_pre(&self, v: &i32) -> bool {
        model::in_i32(-*v)
    }

    fn min(&mut self, v0: &i32, v1: &i32) -> (r: Result<i32, Error>)
        ensures
            r matches Ok(s) && s == if *v0 <= *v1 {
                *v0
            } else {
                *v1
            },
    {
        if *v0 <= *v1 {
            Ok(*v0)
        } else {
            Ok(*v1)
        }
    }

    fn max(&mut self, v0: &i32, v1: &i32) -> (r: Result<i32, Error>)
        ensures
            r matches Ok(s) && s == if *v0 >= *v1 {
                *v0
            } else {
                *v1
            },
    {
        if *v0 >= *v1 {
            Ok(*v0)
        } else {
            Ok(*v1)
        }
    }

    fn abs(&mut self, v: &i32) -> (r: i32)
        ensures
            r == if *v >= 0 {
                *v as int
            } else {
                -*v
            },
    {
        if *v >= 0 {
            *v
        } else {
            -*v
        }
    }

    fn sign(&mut self, v: &i32) -> (r: i32)
        ensures
            r == if *v >= 0 {
                1int
            } else {
                -1int
            },
    {
        if *v >= 0 {
            1
        } else {
            -1
        }
    }

    fn relu(&mut self, v: &i32) -> (r: i32)
        ensures
            r == if *v >= 0 {
                *v
            } else {
                0
            },
    {
        if *v >= 0 {
            *v
        } else {
            0
        }
    }

    fn select_argmax(&mut self, v0: &i32, v1: &i32, r0: Option<&i32>, r1: Option<&i32>) -> (r:
        Result<i32, Error>)
        ensures
            r matches Ok(s) && s as int == if *v0 >= *v1 {
                match r0 {
                    Some(x) => *x as int,
                    None => 0,
                }
            } else {
                match r1 {
                    Some(x) => *x as int,
                    None => 0,
                }
            },
    {
        if *v0 >= *v1 {
            match r0 {
                Some(x) => Ok(*x),
                None => Ok(0),
            }
        } else {
            match r1 {
                Some(x) => Ok(*x),
                None => Ok(0),
            }
        }
    }
}

impl CompareAlgebra<()> for Check {
    open spec fn abs_pre(&self, v: &()) -> bool {
        true
    }

    fn min(&mut self, v0: &(), v1: &()) -> (r: Result<(), Error>)
        ensures
            r is Ok,
    {
        Ok(())
    }

    fn max(&mut self, v0: &(), v1: &()) -> (r: Result<(), Error>)
        ensures
            r is Ok,
    {
        Ok(())
    }

    fn abs(&mut self, v: &()) -> (r: ()) {
    }

    fn sign(&mut self, v: &()) -> (r: ()) {
    }

    fn relu(&mut self, v: &()) -> (r: ()) {
    }

    fn select_argmax(&mut self, v0: &(), v1: &(), r0: Option<&()>, r1: Option<&()>) -> (r: Result<
        (),
        Error,
    >)
        ensures
            r is Ok,
    {
        Ok(())
    }
}

impl CompareAlgebra<Value> for Graph1 {
    open spec fn abs_pre(&self, v: &Value) -> bool {
        model::in_i32(-v@.data)
    }

    fn min(&mut self, v0: &Value, v1: &Value) -> (r: Result<Value, Error>)
        ensures
            ({
                let (n2, vm) = model::tape_select(old(self)@, v0@, v1@, Some(v1@), Some(v0@));
                final(self)@ == n2 && (r matches Ok(v) && v@ == vm)
            }),
    {
        self.select_argmax(v0, v1, Some(v1), Some(v0))
    }

    fn max(&mut self, v0: &Value, v1: &Value) -> (r: Result<Value, Error>)
        ensures
            ({
                let (n2, vm) = model::tape_select(old(self)@, v0@, v1@, Some(v0@), Some(v1@));
                final(self)@ == n2 && (r matches Ok(v) && v@ == vm)
            }),
    {
        self.select_argmax(v0, v1, Some(v0), Some(v1))
    }

    fn abs(&mut self, v: &Value) -> (r: Value)
        ensures
            ({
                let step = model::tape_neg(old(self)@, v@);
                step matches Some((n1, nv)) && ({
                    let (n2, vm) = model::tape_select(n1, v@, nv, Some(v@), Some(nv));
                    final(self)@ == n2 && r@ == vm
                })
            }),
    {
        let neg_v = self.neg(v);
        match self.select_argmax(v, &neg_v, Some(v), Some(&neg_v)) {
            Ok(r) => r,
            Err(_) => vstd::pervasive::unreached(),
        }
    }

    fn sign(&mut self, v: &Value) -> (r: Value)
        ensures
            final(self)@ == old(self)@,
            r@ == ValueModel::constant(
                if v@.data >= 0 {
                    1int
                } else {
                    -1int
                },
            ),
    {
        let s = self.eval().sign(v.data());
        self.constant(s)
    }

    fn relu(&mut self, v: &Value) -> (r: Value)
        ensures
            ({
                let (n2, vm) = model::tape_select(
                    old(self)@,
                    ValueModel::constant(0),
                    v@,
                    Some(ValueModel::constant(0)),
                    Some(v@),
                );
                final(self)@ == n2 && r@ == vm
            }),
    {
        let zero = self.zeros(v);
        match self.select_argmax(&zero, v, Some(&zero), Some(v)) {
            Ok(r) => r,
            Err(_) => vstd::pervasive::unreached(),
        }
    }

    fn select_argmax(&mut self, v0: &Value, v1: &Value, r0: Option<&Value>, r1: Option<&Value>) -> (
        r: Result<Value, Error>)
        ensures
            ({
                let (n2, vm) = model::tape_select(
                    old(self)@,
                    v0@,
                    v1@,
                    branch_model(r0),
                    branch_model(r1),
                );
                final(self)@ == n2 && (r matches Ok(v) && v@ == vm)
            }),
    {
        let r0d: Option<&i32> = match r0 {
            Some(x) => Some(x.data()),
            None => None,
        };
        let r1d: Option<&i32> = match r1 {
            Some(x) => Some(x.data()),
            None => None,
        };
        let data = match self.eval().select_argmax(v0.data(), v1.data(), r0d, r1d) {
            Ok(d) => d,
            Err(_) => vstd::pervasive::unreached(),
        };
        let i0: Option<crate::store::GradientId> = match r0 {
            Some(x) => x.id(),
            None => None,
        };
        let i1: Option<crate::store::GradientId> = match r1 {
            Some(x) => x.id(),
            None => None,
        };
        Ok(self.make_node(data, Op::SelectArgmax(*v0, *v1, i0, i1)))
    }
}

impl CompareAlgebra<Value> for GraphN {
    open spec fn abs_pre(&self, v: &Value) -> bool {
        model::in_i32(-v@.data)
    }

    fn min(&mut self, v0: &Value, v1: &Value) -> (r: Result<Value, Error>)
        ensures
            ({
                let (n2, vm) = model::tape_select(old(self)@, v0@, v1@, Some(v1@), Some(v0@));
                final(self)@ == n2 && (r matches Ok(v) && v@ == vm)
            }),
    {
        self.select_argmax(v0, v1, Some(v1), Some(v0))
    }

    fn max(&mut self, v0: &Value, v1: &Value) -> (r: Result<Value, Error>)
        ensures
            ({
                let (n2, vm) = model::tape_select(old(self)@, v0@, v1@, Some(v0@), Some(v1@));
                final(self)@ == n2 && (r matches Ok(v) && v@ == vm)
            }),
    {
        self.select_argmax(v0, v1, Some(v0), Some(v1))
    }

    fn abs(&mut self, v: &Value) -> (r: Value)
        ensures
            ({
                let step = model::tape_neg(old(self)@, v@);
                step matches Some((n1, nv)) && ({
                    let (n2, vm) = model::tape_select(n1, v@, nv, Some(v@), Some(nv));
                    final(self)@ == n2 && r@ == vm
                })
            }),
    {
        let neg_v = self.neg(v);
        match self.select_argmax(v, &neg_v, Some(v), Some(&neg_v)) {
            Ok(r) => r,
            Err(_) => vstd::pervasive::unreached(),
        }
    }

    fn sign(&mut self, v: &Value) -> (r: Value)
        ensures
            final(self)@ == old(self)@,
            r@ == ValueModel::constant(
                if v@.data >= 0 {
                    1int
                } else {
                    -1int
                },
            ),
    {
        let s = self.eval().sign(v.data());
        self.constant(s)
    }

    fn relu(&mut self, v: &Value) -> (r: Value)
        ensures
            ({
                let (n2, vm) = model::tape_select(
                    old(self)@,
                    ValueModel::constant(0),
                    v@,
                    Some(ValueModel::constant(0)),
                    Some(v@),
                );
                final(self)@ == n2 && r@ == vm
            }),
    {
        let zero = self.zeros(v);
        match self.select_argmax(&zero, v, Some(&zero), Some(v)) {
            Ok(r) => r,
            Err(_) => vstd::pervasive::unreached(),
        }
    }

    fn select_argmax(&mut self, v0: &Value, v1: &Value, r0: Option<&Value>, r1: Option<&Value>) -> (
        r: Result<Value, Error>)
        ensures
            ({
                let (n2, vm) = model::tape_select(
                    old(self)@,
                    v0@,
                    v1@,
                    branch_model(r0),
                    branch_model(r1),
                );
                final(self)@ == n2 && (r matches Ok(v) && v@ == vm)
            }),
    {
        let r0d: Option<&i32> = match r0 {
            Some(x) => Some(x.data()),
            None => None,
        };
        let r1d: Option<&i32> = match r1 {
            Some(x) => Some(x.data()),
            None => None,
        };
        let data = match self.eval().select_argmax(v0.data(), v1.data(), r0d, r1d) {
            Ok(d) => d,
            Err(_) => vstd::pervasive::unreached(),
        };
        let i0: Option<crate::store::GradientId> = match r0 {
            Some(x) => x.id(),
            None => None,
        };
        let i1: Option<crate::store::GradientId> = match r1 {
            Some(x) => x.id(),
            None => None,
        };
        Ok(self.make_node(data, Op::SelectArgmax(*v0, *v1, i0, i1)))
    }
}


impl CompareAlgebra<crate::dims::Dim4> for Check {
    open spec fn abs_pre(&self, v: &crate::dims::Dim4) -> bool {
        true
    }

    fn min(&mut self, v0: &crate::dims::Dim4, v1: &crate::dims::Dim4) -> (r: Result<
        crate::dims::Dim4,
        Error,
    >)
        ensures
            *v0 == *v1 ==> r == Ok::<crate::dims::Dim4, Error>(*v0),
            *v0 != *v1 ==> r matches Err(Error::Dimensions { .. }),
    {
        crate::arith::check_two("min", v0, v1)
    }

    fn max(&mut self, v0: &crate::dims::Dim4, v1: &crate::dims::Dim4) -> (r: Result<
        crate::dims::Dim4,
        Error,
    >)
        ensures
            *v0 == *v1 ==> r == Ok::<crate::dims::Dim4, Error>(*v0),
            *v0 != *v1 ==> r matches Err(Error::Dimensions { .. }),
    {
        crate::arith::check_two("max", v0, v1)
    }

    fn abs(&mut self, v: &crate::dims::Dim4) -> (r: crate::dims::Dim4)
        ensures
            r == *v,
    {
        *v
    }

    fn sign(&mut self, v: &crate::dims::Dim4) -> (r: crate::dims::Dim4)
        ensures
            r == *v,
    {
        *v
    }

    fn relu(&mut self, v: &crate::dims::Dim4) -> (r: crate::dims::Dim4)
        ensures
            r == *v,
    {
        *v
    }

    fn select_argmax(
        &mut self,
        v0: &crate::dims::Dim4,
        v1: &crate::dims::Dim4,
        r0: Option<&crate::dims::Dim4>,
        r1: Option<&crate::dims::Dim4>,
    ) -> (r: Result<crate::dims::Dim4, Error>)
        ensures
            ({
                let b0_ok = match r0 {
                    Some(b) => *b == *v0,
                    None => true,
                };
                let b1_ok = match r1 {
                    Some(b) => *b == *v1,
                    None => true,
                };
                (*v0 == *v1 && b0_ok && b1_ok) ==> r == Ok::<crate::dims::Dim4, Error>(*v0)
            }),
            ({
                let b0_ok = match r0 {
                    Some(b) => *b == *v0,
                    None => true,
                };
                let b1_ok = match r1 {
                    Some(b) => *b == *v1,
                    None => true,
                };
                !(*v0 == *v1 && b0_ok && b1_ok) ==> r matches Err(Error::Dimensions { .. })
            }),
    {
        let d = match crate::arith::check_two("select_argmax", v0, v1) {
            Ok(d) => d,
            Err(e) => {
                return Err(e);
            },
        };
        if let Some(b) = r0 {
            match crate::arith::check_two("select_argmax", v0, b) {
                Ok(x) => x,
                Err(e) => {
                    return Err(e);
                },
            };
        }
        if let Some(b) = r1 {
            match crate::arith::check_two("select_argmax", v1, b) {
                Ok(x) => x,
                Err(e) => {
                    return Err(e);
                },
            };
        }
        Ok(d)
    }
}

} // verus!
