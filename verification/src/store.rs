//! Gradient storage for the backward pass.
//!
//! A store maps node handles to the gradient accumulated for them so far.
//! It is built empty at the start of each backward pass, seeded with the one
//! starting gradient, and populated as the traversal proceeds.

use crate::core_algebra::CoreAlgebra;
use crate::error::Error;
use crate::model;
use crate::Eval;
use vstd::prelude::*;

verus! {

/// Index of a computation node tracked in a graph.
#[derive(Clone, Copy, Debug, PartialEq, Eq, Hash, Structural)]
pub struct Id {
    pub(crate) index: usize,
}

impl View for Id {
    type V = int;

    closed spec fn view(&self) -> int {
        self.index as int
    }
}

/// A node id associated with the gradient value it indexes.
#[derive(Clone, Copy, Debug, PartialEq, Eq, Hash, Structural)]
pub struct GradientId {
    pub(crate) inner: Id,
}

impl View for GradientId {
    type V = int;

    closed spec fn view(&self) -> int {
        self.inner.index as int
    }
}

impl GradientId {
    /// Associate a gradient with an index.
    pub(crate) fn new(id: Id) -> (r: GradientId)
        ensures
            r@ == id@,
    {
        GradientId { inner: id }
    }
}

/// The id of the node at position `index`.
pub(crate) fn id_at(index: usize) -> (r: Id)
    ensures
        r@ == index,
{
    Id { index }
}

/// The raw node index behind a gradient id.
pub(crate) fn gid_inner(g: &GradientId) -> (r: Id)
    ensures
        r@ == g@,
{
    g.inner
}

/// The position a raw id refers to.
pub(crate) fn id_at_index(id: &Id) -> (r: usize)
    ensures
        r == id@,
{
    id.index
}

/// The position of the node a gradient id refers to.
pub(crate) fn gid_index(g: &GradientId) -> (r: usize)
    ensures
        r == g@,
{
    g.inner.index
}

/// Trait for reading gradient values of type `T` given a handle of type `I`.
pub trait GradientReader<I, T> {
    fn read(&self, id: I) -> Option<&T>;
}

/// Trait for accessing gradient values of type `T` given a handle of type `I`.
pub trait GradientStore<I, T>: GradientReader<I, T> {
    fn insert(&mut self, id: I, gradient: T);

    fn get(&self, id: I) -> Option<&T>;
}

/// Gradient store used by first-order backward passes: handles are mapped to
/// plain gradient data.
#[derive(Debug)]
pub struct GenericGradientMap1 {
    values: Vec<Option<i32>>,
}

impl View for GenericGradientMap1 {
    type V = Map<int, int>;

    closed spec fn view(&self) -> Map<int, int> {
        Map::new(
            |k: int| 0 <= k < self.values@.len() && self.values@[k] is Some,
            |k: int| self.values@[k].unwrap() as int,
        )
    }
}

impl std::default::Default for GenericGradientMap1 {
    /// An empty store.
    fn default() -> (r: GenericGradientMap1)
        ensures
            r@ == Map::<int, int>::empty(),
    {
        let r = GenericGradientMap1 { values: Vec::new() };
        proof {
            assert(r@ =~= Map::<int, int>::empty());
        }
        r
    }
}

impl GenericGradientMap1 {
    /// Update the gradient at `id` during backward propagation: insert the
    /// value when the handle is fresh, otherwise combine with the existing
    /// entry using the algebra's own addition.
    pub fn add_gradient(&mut self, graph: &mut Eval, id: GradientId, value: &i32) -> (r: Result<
        (),
        Error,
    >)
        ensures
            match model::contribute1(old(self)@, Some(id@), *value as int) {
                Some(m) => r is Ok && final(self)@ == m,
                None => r matches Err(Error::Overflow { .. }) && final(self)@ == old(self)@,
            },
    {
        let cur_opt: Option<i32> = match self.read(id) {
            Some(c) => Some(*c),
            None => None,
        };
        match cur_opt {
            None => {
                self.insert(id, *value);
                Ok(())
            },
            Some(cur) => {
                match graph.add(&cur, value) {
                    Ok(s) => {
                        self.insert(id, s);
                        Ok(())
                    },
                    Err(e) => Err(e),
                }
            },
        }
    }
}

impl GradientReader<GradientId, i32> for GenericGradientMap1 {
    fn read(&self, id: GradientId) -> (r: Option<&i32>)
        ensures
            match r {
                Some(v) => self@.contains_key(id@) && *v == self@[id@],
                None => !self@.contains_key(id@),
            },
    {
        if id.inner.index < self.values.len() {
            self.values[id.inner.index].as_ref()
        } else {
            None
        }
    }
}

impl GradientStore<GradientId, i32> for GenericGradientMap1 {
    fn insert(&mut self, id: GradientId, gradient: i32)
        ensures
            final(self)@ == old(self)@.insert(id@, gradient as int),
    {
        let idx = id.inner.index;
        while self.values.len() <= idx
            invariant
                self@ == old(self)@,
            decreases idx + 1 - self.values@.len(),
        {
            let ghost pre = *self;
            self.values.push(None);
            proof {
                assert(self@ =~= pre@);
            }
        }
        self.values[idx] = Some(gradient);
        proof {
            assert(self@ =~= old(self)@.insert(id@, gradient as int));
        }
    }

    fn get(&self, id: GradientId) -> (r: Option<&i32>)
        ensures
            match r {
                Some(v) => self@.contains_key(id@) && *v == self@[id@],
                None => !self@.contains_key(id@),
            },
    {
        self.read(id)
    }
}

/// Gradient store used by higher-order backward passes: handles are mapped
/// to tracked values, so stored gradients can be differentiated again.
#[derive(Debug)]
pub struct GenericGradientMapN {
    values: Vec<Option<crate::graph::Value>>,
}

impl View for GenericGradientMapN {
    type V = Map<int, model::ValueModel>;

    closed spec fn view(&self) -> Map<int, model::ValueModel> {
        Map::new(
            |k: int| 0 <= k < self.values@.len() && self.values@[k] is Some,
            |k: int| self.values@[k].unwrap()@,
        )
    }
}

impl std::default::Default for GenericGradientMapN {
    /// An empty store.
    fn default() -> (r: GenericGradientMapN)
        ensures
            r@ == Map::<int, model::ValueModel>::empty(),
    {
        let r = GenericGradientMapN { values: Vec::new() };
        proof {
            assert(r@ =~= Map::<int, model::ValueModel>::empty());
        }
        r
    }
}

impl GenericGradientMapN {
    /// Update the tracked gradient at `id` during backward propagation:
    /// insert the value when the handle is fresh, otherwise combine with the
    /// existing entry using the tape's own addition, which records the sum
    /// as one more node.
    pub fn add_gradient(
        &mut self,
        graph: &mut crate::graph::GraphN,
        id: GradientId,
        value: &crate::graph::Value,
    ) -> (r: Result<(), Error>)
        ensures
            match model::contributen(
                model::StateN { nodes: old(graph)@, store: old(self)@ },
                Some(id@),
                value@,
            ) {
                Some(st2) => r is Ok && final(self)@ == st2.store && final(graph)@ == st2.nodes,
                None => r matches Err(Error::Overflow { .. }) && final(self)@ == old(self)@
                    && final(graph)@ == old(graph)@,
            },
    {
        let cur_opt: Option<crate::graph::Value> = match self.read(id) {
            Some(c) => Some(*c),
            None => None,
        };
        match cur_opt {
            None => {
                self.insert(id, *value);
                Ok(())
            },
            Some(cur) => {
                match graph.add(&cur, value) {
                    Ok(s) => {
                        self.insert(id, s);
                        Ok(())
                    },
                    Err(e) => Err(e),
                }
            },
        }
    }
}

impl GradientReader<GradientId, crate::graph::Value> for GenericGradientMapN {
    fn read(&self, id: GradientId) -> (r: Option<&crate::graph::Value>)
        ensures
            match r {
                Some(v) => self@.contains_key(id@) && v@ == self@[id@],
                None => !self@.contains_key(id@),
            },
    {
        if id.inner.index < self.values.len() {
            self.values[id.inner.index].as_ref()
        } else {
            None
        }
    }
}

impl GradientStore<GradientId, crate::graph::Value> for GenericGradientMapN {
    fn insert(&mut self, id: GradientId, gradient: crate::graph::Value)
        ensures
            final(self)@ == old(self)@.insert(id@, gradient@),
    {
        let idx = id.inner.index;
        while self.values.len() <= idx
            invariant
                self@ == old(self)@,
            decreases idx + 1 - self.values@.len(),
        {
            let ghost pre = *self;
            self.values.push(None);
            proof {
                assert(self@ =~= pre@);
            }
        }
        self.values[idx] = Some(gradient);
        proof {
            assert(self@ =~= old(self)@.insert(id@, gradient@));
        }
    }

    fn get(&self, id: GradientId) -> (r: Option<&crate::graph::Value>)
        ensures
            match r {
                Some(v) => self@.contains_key(id@) && v@ == self@[id@],
                None => !self@.contains_key(id@),
            },
    {
        self.read(id)
    }
}

/// A gradient store that contains no value. This is the placeholder for
/// algebras that never run a backward pass.
#[derive(Debug, Default)]
pub struct EmptyGradientMap;

impl<T> GradientReader<(), T> for EmptyGradientMap {
    fn read<'a>(&'a self, id: ()) -> (r: Option<&'a T>) {
        None::<&'a T>
    }
}

} // verus!
