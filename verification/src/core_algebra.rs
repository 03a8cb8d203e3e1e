//! Core operations: tracking values and summing them.
//!
//! [`CoreAlgebra`] is the contract every algebra offers: lift raw data into a
//! tracked value, either differentiable (`variable`) or not (`constant`), and
//! sum tracked values — the one operation the engine itself needs, because
//! gradient accumulation is delegated to it.

use crate::error::Error;
use crate::graph::Graph1;
use crate::graph::GraphN;
use crate::graph::Op;
use crate::graph::Value;
use crate::model;
use crate::model::ValueModel;
use crate::Check;
use crate::Eval;
use crate::Number;
use crate::store::GradientId;
use vstd::prelude::*;

verus! {

/// Core trait for data operations that support differentiation of values.
pub trait CoreAlgebra<Data> {
    /// Tracked values of underlying type `Data`.
    type Value;

    /// A differentiable input to the computation.
    fn variable(&mut self, data: Data) -> Self::Value;

    /// A non-differentiable input to the computation.
    fn constant(&mut self, data: Data) -> Self::Value;

    /// Compute the sum of two values `v1 + v2`.
    fn add(&mut self, v1: &Self::Value, v2: &Self::Value) -> Result<Self::Value, Error>;

    /// Compute the sum of one or more values.
    fn add_all(&mut self, values: &[&Self::Value]) -> Result<Self::Value, Error>;
}

/// Obtain the dimensions of a value.
pub trait HasDims {
    type Dims;

    fn dims(&self) -> Self::Dims;
}

impl<T: Number> HasDims for T {
    type Dims = ();

    fn dims(&self) {
    }
}

impl HasDims for Value {
    type Dims = ();

    fn dims(&self) {
    }
}

impl HasDims for crate::dims::Dim4 {
    type Dims = crate::dims::Dim4;

    fn dims(&self) -> (r: crate::dims::Dim4)
        ensures
            r == *self,
    {
        *self
    }
}

impl CoreAlgebra<i32> for Check {
    type Value = ();

    fn variable(&mut self, data: i32) -> (r: ()) {
    }

    fn constant(&mut self, data: i32) -> (r: ()) {
    }

    fn add(&mut self, v1: &(), v2: &()) -> (r: Result<(), Error>)
        ensures
            r is Ok,
    {
        Ok(())
    }

    fn add_all(&mut self, values: &[&()]) -> (r: Result<(), Error>)
        ensures
            r is Ok,
    {
        Ok(())
    }
}

impl CoreAlgebra<i32> for Eval {
    type Value = i32;

    fn variable(&mut self, data: i32) -> (r: i32)
        ensures
            r == data,
    {
        data
    }

    fn constant(&mut self, data: i32) -> (r: i32)
        ensures
            r == data,
    {
        data
    }

    fn add(&mut self, v1: &i32, v2: &i32) -> (r: Result<i32, Error>)
        ensures
            crate::model::in_i32(*v1 + *v2) ==> (r matches Ok(s) && s == *v1 + *v2),
            !crate::model::in_i32(*v1 + *v2) ==> r matches Err(Error::Overflow { .. }),
    {
        let s: i64 = (*v1 as i64) + (*v2 as i64);
        if s > (i32::MAX as i64) || s < (i32::MIN as i64) {
            Err(Error::overflow("add"))
        } else {
            Ok(s as i32)
        }
    }

    fn add_all(&mut self, values: &[&i32]) -> (r: Result<i32, Error>)
        ensures
            values@.len() == 0 ==> r matches Err(Error::Empty { .. }),
            values@.len() > 0 ==> match crate::model::sum_checked(
                values@.map_values(|v: &i32| *v as int),
            ) {
                Some(total) => (r matches Ok(s) && s == total),
                None => r matches Err(Error::Overflow { .. }),
            },
    {
        let ghost data: Seq<int> = values@.map_values(|v: &i32| *v as int);
        if values.len() == 0 {
            return Err(Error::empty("add_all"));
        }
        let mut result: i32 = *values[0];
        let mut i: usize = 1;
        proof {
            assert(data.subrange(0, 1) =~= seq![data[0]]);
        }
        while i < values.len()
            invariant
                1 <= i <= values@.len(),
                data == values@.map_values(|v: &i32| *v as int),
                data.len() == values@.len(),
                crate::model::sum_checked(data.subrange(0, i as int)) == Some(result as int),
            decreases values@.len() - i,
        {
            let s: i64 = (result as i64) + (*values[i] as i64);
            proof {
                assert(data.subrange(0, i + 1).drop_last() =~= data.subrange(0, i as int));
                assert(data.subrange(0, i + 1).last() == data[i as int]);
            }
            if s > (i32::MAX as i64) || s < (i32::MIN as i64) {
                proof {
                    lemma_sum_checked_prefix_none(data, i + 1);
                }
                return Err(Error::overflow("add_all"));
            }
            result = s as i32;
            i = i + 1;
        }
        proof {
            assert(data.subrange(0, data.len() as int) =~= data);
        }
        Ok(result)
    }
}

impl CoreAlgebra<i32> for Graph1 {
    type Value = Value;

    fn variable(&mut self, data: i32) -> (r: Value)
        ensures
            ({
                let (n2, vm) = model::tape_variable(old(self)@, data as int);
                final(self)@ == n2 && r@ == vm
            }),
    {
        self.make_variable(data)
    }

    fn constant(&mut self, data: i32) -> (r: Value)
        ensures
            final(self)@ == old(self)@,
            r@ == ValueModel::constant(data as int),
    {
        Value::constant(data)
    }

    fn add(&mut self, v1: &Value, v2: &Value) -> (r: Result<Value, Error>)
        ensures
            match model::tape_add(old(self)@, v1@, v2@) {
                Some((n2, vm)) => final(self)@ == n2 && (r matches Ok(v) && v@ == vm),
                None => final(self)@ == old(self)@ && r matches Err(Error::Overflow { .. }),
            },
    {
        let data = match self.eval().add(v1.data(), v2.data()) {
            Ok(d) => d,
            Err(e) => {
                return Err(e);
            },
        };
        Ok(self.make_node(data, Op::Add(v1.id(), v2.id())))
    }

    fn add_all(&mut self, values: &[&Value]) -> (r: Result<Value, Error>)
        ensures
            values@.len() == 0 ==> final(self)@ == old(self)@ && r matches Err(
                Error::Empty { .. },
            ),
            values@.len() > 0 ==> match model::tape_add_all(
                old(self)@,
                values@.map_values(|v: &Value| v@),
            ) {
                Some((n2, vm)) => final(self)@ == n2 && (r matches Ok(v) && v@ == vm),
                None => final(self)@ == old(self)@ && r matches Err(Error::Overflow { .. }),
            },
    {
        let ghost vs = values@.map_values(|v: &Value| v@);
        if values.len() == 0 {
            return Err(Error::empty("add_all"));
        }
        let mut ds: Vec<&i32> = Vec::new();
        let mut k: usize = 0;
        while k < values.len()
            invariant
                k <= values@.len(),
                ds@.len() == k,
                vs == values@.map_values(|v: &Value| v@),
                vs.len() == values@.len(),
                forall|j: int| 0 <= j < k ==> (*#[trigger] ds@[j]) as int == vs[j].data,
            decreases values@.len() - k,
        {
            ds.push(values[k].data());
            k = k + 1;
        }
        proof {
            assert(ds@.map_values(|v: &i32| *v as int) =~= vs.map(
                |i: int, v: ValueModel| v.data,
            ));
        }
        let data = match self.eval().add_all(ds.as_slice()) {
            Ok(d) => d,
            Err(e) => {
                return Err(e);
            },
        };
        let mut ids: Vec<Option<GradientId>> = Vec::new();
        let mut k2: usize = 0;
        while k2 < values.len()
            invariant
                k2 <= values@.len(),
                ids@.len() == k2,
                vs == values@.map_values(|v: &Value| v@),
                vs.len() == values@.len(),
                forall|j: int| 0 <= j < k2 ==> crate::graph::oid(#[trigger] ids@[j]) == vs[j].id,
            decreases values@.len() - k2,
        {
            ids.push(values[k2].id());
            k2 = k2 + 1;
        }
        proof {
            assert(ids@.map_values(|o: Option<GradientId>| crate::graph::oid(o)) =~= vs.map(
                |i: int, v: ValueModel| v.id,
            ));
        }
        Ok(self.make_node(data, Op::AddAll(ids)))
    }
}

impl CoreAlgebra<i32> for GraphN {
    type Value = Value;

    fn variable(&mut self, data: i32) -> (r: Value)
        ensures
            ({
                let (n2, vm) = model::tape_variable(old(self)@, data as int);
                final(self)@ == n2 && r@ == vm
            }),
    {
        self.make_variable(data)
    }

    fn constant(&mut self, data: i32) -> (r: Value)
        ensures
            final(self)@ == old(self)@,
            r@ == ValueModel::constant(data as int),
    {
        Value::constant(data)
    }

    fn add(&mut self, v1: &Value, v2: &Value) -> (r: Result<Value, Error>)
        ensures
            match model::tape_add(old(self)@, v1@, v2@) {
                Some((n2, vm)) => final(self)@ == n2 && (r matches Ok(v) && v@ == vm),
                None => final(self)@ == old(self)@ && r matches Err(Error::Overflow { .. }),
            },
    {
        let data = match self.eval().add(v1.data(), v2.data()) {
            Ok(d) => d,
            Err(e) => {
                return Err(e);
            },
        };
        Ok(self.make_node(data, Op::Add(v1.id(), v2.id())))
    }

    fn add_all(&mut self, values: &[&Value]) -> (r: Result<Value, Error>)
        ensures
            values@.len() == 0 ==> final(self)@ == old(self)@ && r matches Err(
                Error::Empty { .. },
            ),
            values@.len() > 0 ==> match model::tape_add_all(
                old(self)@,
                values@.map_values(|v: &Value| v@),
            ) {
                Some((n2, vm)) => final(self)@ == n2 && (r matches Ok(v) && v@ == vm),
                None => final(self)@ == old(self)@ && r matches Err(Error::Overflow { .. }),
            },
    {
        let ghost vs = values@.map_values(|v: &Value| v@);
        if values.len() == 0 {
            return Err(Error::empty("add_all"));
        }
        let mut ds: Vec<&i32> = Vec::new();
        let mut k: usize = 0;
        while k < values.len()
            invariant
                k <= values@.len(),
                ds@.len() == k,
                vs == values@.map_values(|v: &Value| v@),
                vs.len() == values@.len(),
                forall|j: int| 0 <= j < k ==> (*#[trigger] ds@[j]) as int == vs[j].data,
            decreases values@.len() - k,
        {
            ds.push(values[k].data());
            k = k + 1;
        }
        proof {
            assert(ds@.map_values(|v: &i32| *v as int) =~= vs.map(
                |i: int, v: ValueModel| v.data,
            ));
        }
        let data = match self.eval().add_all(ds.as_slice()) {
            Ok(d) => d,
            Err(e) => {
                return Err(e);
            },
        };
        let mut ids: Vec<Option<GradientId>> = Vec::new();
        let mut k2: usize = 0;
        while k2 < values.len()
            invariant
                k2 <= values@.len(),
                ids@.len() == k2,
                vs == values@.map_values(|v: &Value| v@),
                vs.len() == values@.len(),
                forall|j: int| 0 <= j < k2 ==> crate::graph::oid(#[trigger] ids@[j]) == vs[j].id,
            decreases values@.len() - k2,
        {
            ids.push(values[k2].id());
            k2 = k2 + 1;
        }
        proof {
            assert(ids@.map_values(|o: Option<GradientId>| crate::graph::oid(o)) =~= vs.map(
                |i: int, v: ValueModel| v.id,
            ));
        }
        Ok(self.make_node(data, Op::AddAll(ids)))
    }
}

/// Once a prefix of the summands overflows, the whole checked sum does.

proof fn lemma_sum_checked_prefix_none(data: Seq<int>, k: int)
    requires
        0 < k <= data.len(),
        crate::model::sum_checked(data.subrange(0, k)) is None,
    ensures
        crate::model::sum_checked(data) is None,
    decreases data.len() - k,
{
    if k == data.len() {
        assert(data.subrange(0, k) =~= data);
    } else {
        assert(data.subrange(0, k + 1).drop_last() =~= data.subrange(0, k));
        lemma_sum_checked_prefix_none(data, k + 1);
    }
}

} // verus!
