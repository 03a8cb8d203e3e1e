//! Pointwise arithmetic operations with a constant value.

use crate::core_algebra::CoreAlgebra;
use crate::error::Error;
use crate::graph::Graph1;
use crate::graph::GraphN;
use crate::graph::Op;
use crate::graph::Value;
use crate::model;
use crate::model::ValueModel;
use crate::Check;
use crate::Eval;
use vstd::prelude::*;

verus! {

/// Element-wise arithmetic operations with a constant value.
pub trait ConstArithAlgebra<V, C> {
    /// When `setc` may be called: its result must fit the machine range.
    spec fn setc_pre(&self, v: &V, c: C) -> bool;

    /// When `addc` may be called: its result must fit the machine range.
    spec fn addc_pre(&self, v: &V, c: C) -> bool;

    /// When `mulc` may be called: its result must fit the machine range.
    spec fn mulc_pre(&self, v: &V, c: C) -> bool;

    /// When `powc` may be called: every partial power must fit the machine
    /// range.
    spec fn powc_pre(&self, v: &V, c: C) -> bool;

    /// A value with the same shape as `v` set from the constant `c`.
    fn setc(&mut self, v: &V, c: C) -> V
        requires
            old(self).setc_pre(v, c),
    ;

    /// Element-wise addition of a constant `v + c`.
    fn addc(&mut self, v: &V, c: C) -> V
        requires
            old(self).addc_pre(v, c),
    ;

    /// Element-wise multiplication by a constant `v * c`.
    fn mulc(&mut self, v: &V, c: C) -> V
        requires
            old(self).mulc_pre(v, c),
    ;

    /// Element-wise exponentiation by a constant `v ^ c`.
    fn powc(&mut self, v: &V, c: C) -> V
        requires
            old(self).powc_pre(v, c),
    ;
}

/// `b ^ e` by repeated checked multiplication: the exact power when every
/// partial power fits the machine range, the overflow error otherwise.
pub(crate) fn pow_i32_checked(b: i32, e: u8) -> (r: Result<i32, Error>)
    ensures
        model::pow_fits(b as int, e as nat) ==> (r matches Ok(s) && s == model::pow_int(
            b as int,
            e as nat,
        )),
        !model::pow_fits(b as int, e as nat) ==> r matches Err(Error::Overflow { .. }),
{
    let mut acc: i32 = 1;
    let mut k: u8 = 0;
    while k < e
        invariant
            k <= e,
            acc == model::pow_int(b as int, k as nat),
            model::pow_fits(b as int, k as nat),
        decreases e - k,
    {
        proof {
            model::lemma_i32_product_fits(b as int, acc as int);
        }
        let m: i64 = (b as i64) * (acc as i64);
        proof {
            assert(model::pow_int(b as int, (k + 1) as nat) == (b as int) * model::pow_int(
                b as int,
                k as nat,
            ));
        }
        if m > (i32::MAX as i64) || m < (i32::MIN as i64) {
            proof {
                assert(!model::in_i32(model::pow_int(b as int, (k + 1) as nat)));
                assert(!model::pow_fits(b as int, e as nat));
            }
            return Err(Error::overflow("powc"));
        }
        acc = m as i32;
        k = k + 1;
        proof {
            assert forall|m2: nat| m2 <= k as nat implies model::in_i32(
                #[trigger] model::pow_int(b as int, m2),
            ) by {
                if m2 < k as nat {
                    assert(model::in_i32(model::pow_int(b as int, m2)));
                }
            }
        }
    }
    Ok(acc)
}

impl ConstArithAlgebra<i32, u8> for Eval {
    open spec fn setc_pre(&self, v: &i32, c: u8) -> bool {
        true
    }

    open spec fn addc_pre(&self, v: &i32, c: u8) -> bool {
        model::in_i32(*v + c)
    }

    open spec fn mulc_pre(&self, v: &i32, c: u8) -> bool {
        model::in_i32(*v * c)
    }

    open spec fn powc_pre(&self, v: &i32, c: u8) -> bool {
        model::pow_fits(*v as int, c as nat)
    }

    fn setc(&mut self, v: &i32, c: u8) -> (r: i32)
        ensures
            r == c,
    {
        c as i32
    }

    fn addc(&mut self, v: &i32, c: u8) -> (r: i32)
        ensures
            r == *v + c,
    {
        ((*v as i64) + (c as i64)) as i32
    }

    fn mulc(&mut self, v: &i32, c: u8) -> (r: i32)
        ensures
            r == *v * c,
    {
        ((*v as i64) * (c as i64)) as i32
    }

    fn powc(&mut self, v: &i32, c: u8) -> (r: i32)
        ensures
            r == model::pow_int(*v as int, c as nat),
    {
        match pow_i32_checked(*v, c) {
            Ok(s) => s,
            Err(_) => vstd::pervasive::unreached(),
        }
    }
}

impl ConstArithAlgebra<(), u8> for Check {
    open spec fn setc_pre(&self, v: &(), c: u8) -> bool {
        true
    }

    open spec fn addc_pre(&self, v: &(), c: u8) -> bool {
        true
    }

    open spec fn mulc_pre(&self, v: &(), c: u8) -> bool {
        true
    }

    open spec fn powc_pre(&self, v: &(), c: u8) -> bool {
        true
    }

    fn setc(&mut self, v: &(), c: u8) -> (r: ()) {
    }

    fn addc(&mut self, v: &(), c: u8) -> (r: ()) {
    }

    fn mulc(&mut self, v: &(), c: u8) -> (r: ()) {
    }

    fn powc(&mut self, v: &(), c: u8) -> (r: ()) {
    }
}

impl ConstArithAlgebra<Value, u8> for Graph1 {
    open spec fn setc_pre(&self, v: &Value, c: u8) -> bool {
        model::in_i32(v@.data + c)
    }

    open spec fn addc_pre(&self, v: &Value, c: u8) -> bool {
        model::in_i32(v@.data + c)
    }

    open spec fn mulc_pre(&self, v: &Value, c: u8) -> bool {
        model::in_i32(v@.data * c)
    }

    open spec fn powc_pre(&self, v: &Value, c: u8) -> bool {
        model::pow_fits(v@.data, c as nat)
    }

    fn setc(&mut self, v: &Value, c: u8) -> (r: Value)
        ensures
            final(self)@ == old(self)@,
            r@ == ValueModel::constant(v@.data + c),
    {
        let d = self.eval().addc(v.data(), c);
        self.constant(d)
    }

    fn addc(&mut self, v: &Value, c: u8) -> (r: Value)
        ensures
            ({
                let opt = model::tape_addc(old(self)@, v@, c as int);
                opt matches Some((n2, vm)) && final(self)@ == n2 && r@ == vm
            }),
    {
        let d = self.eval().addc(v.data(), c);
        self.make_node(d, Op::Addc(v.id()))
    }

    fn mulc(&mut self, v: &Value, c: u8) -> (r: Value)
        ensures
            ({
                let opt = model::tape_mulc(old(self)@, v@, c as int);
                opt matches Some((n2, vm)) && final(self)@ == n2 && r@ == vm
            }),
    {
        let d = self.eval().mulc(v.data(), c);
        self.make_node(d, Op::Mulc(v.id(), c as i32))
    }

    fn powc(&mut self, v: &Value, c: u8) -> (r: Value)
        ensures
            ({
                let opt = model::tape_powc(old(self)@, v@, c as nat);
                opt matches Some((n2, vm)) && final(self)@ == n2 && r@ == vm
            }),
    {
        let d = self.eval().powc(v.data(), c);
        self.make_node(d, Op::Powc(*v, c))
    }
}

impl ConstArithAlgebra<Value, u8> for GraphN {
    open spec fn setc_pre(&self, v: &Value, c: u8) -> bool {
        model::in_i32(v@.data + c)
    }

    open spec fn addc_pre(&self, v: &Value, c: u8) -> bool {
        model::in_i32(v@.data + c)
    }

    open spec fn mulc_pre(&self, v: &Value, c: u8) -> bool {
        model::in_i32(v@.data * c)
    }

    open spec fn powc_pre(&self, v: &Value, c: u8) -> bool {
        model::pow_fits(v@.data, c as nat)
    }

    fn setc(&mut self, v: &Value, c: u8) -> (r: Value)
        ensures
            final(self)@ == old(self)@,
            r@ == ValueModel::constant(v@.data + c),
    {
        let d = self.eval().addc(v.data(), c);
        self.constant(d)
    }

    fn addc(&mut self, v: &Value, c: u8) -> (r: Value)
        ensures
            ({
                let opt = model::tape_addc(old(self)@, v@, c as int);
                opt matches Some((n2, vm)) && final(self)@ == n2 && r@ == vm
            }),
    {
        let d = self.eval().addc(v.data(), c);
        self.make_node(d, Op::Addc(v.id()))
    }

    fn mulc(&mut self, v: &Value, c: u8) -> (r: Value)
        ensures
            ({
                let opt = model::tape_mulc(old(self)@, v@, c as int);
                opt matches Some((n2, vm)) && final(self)@ == n2 && r@ == vm
            }),
    {
        let d = self.eval().mulc(v.data(), c);
        self.make_node(d, Op::Mulc(v.id(), c as i32))
    }

    fn powc(&mut self, v: &Value, c: u8) -> (r: Value)
        ensures
            ({
                let opt = model::tape_powc(old(self)@, v@, c as nat);
                opt matches Some((n2, vm)) && final(self)@ == n2 && r@ == vm
            }),
    {
        let d = self.eval().powc(v.data(), c);
        self.make_node(d, Op::Powc(*v, c))
    }
}


impl ConstArithAlgebra<crate::dims::Dim4, u8> for Check {
    open spec fn setc_pre(&self, v: &crate::dims::Dim4, c: u8) -> bool {
        true
    }

    open spec fn addc_pre(&self, v: &crate::dims::Dim4, c: u8) -> bool {
        true
    }

    open spec fn mulc_pre(&self, v: &crate::dims::Dim4, c: u8) -> bool {
        true
    }

    open spec fn powc_pre(&self, v: &crate::dims::Dim4, c: u8) -> bool {
        true
    }

    fn setc(&mut self, v: &crate::dims::Dim4, c: u8) -> (r: crate::dims::Dim4)
        ensures
            r == *v,
    {
        *v
    }

    fn addc(&mut self, v: &crate::dims::Dim4, c: u8) -> (r: crate::dims::Dim4)
        ensures
            r == *v,
    {
        *v
    }

    fn mulc(&mut self, v: &crate::dims::Dim4, c: u8) -> (r: crate::dims::Dim4)
        ensures
            r == *v,
    {
        *v
    }

    fn powc(&mut self, v: &crate::dims::Dim4, c: u8) -> (r: crate::dims::Dim4)
        ensures
            r == *v,
    {
        *v
    }
}

} // verus!
