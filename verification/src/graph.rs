//! The tape: an append-only record of the computation graph.
//!
//! Building an expression appends one node per differentiable intermediate
//! value. A node's dependency handles always point to nodes allocated
//! strictly earlier, so allocation order is a valid dependency order — the
//! invariant the backward traversal exploits.
//!
//! [`Graph1`] supports first-order gradients: its backward pass accumulates
//! plain data. [`GraphN`] supports higher-order gradients: its backward pass
//! accumulates tracked values, appending the gradient's own formula to the
//! tape so it can be differentiated again.

use crate::arith::ArithAlgebra;
use crate::compare::CompareAlgebra;
use crate::error::Error;
use crate::model;
use crate::model::NodeModel;
use crate::model::OpModel;
use crate::model::ValueModel;
use crate::store::GenericGradientMap1;
use crate::store::GradientId;
use crate::store::GradientReader;
use crate::store::GradientStore;
use crate::store::Id;
use crate::Eval;
use vstd::prelude::*;

verus! {

/// A value tracked in a graph: the forward data paired with the handle of
/// its node, or no handle at all for a constant. A constant is never written
/// to the tape.
#[derive(Clone, Copy, Debug, PartialEq, Default)]
pub struct Value {
    data: i32,
    id: Option<GradientId>,
}

/// The handle of an optional tracked id, as a model index.
pub open spec fn oid(o: Option<GradientId>) -> Option<int> {
    match o {
        Some(g) => Some(g@),
        None => None,
    }
}

/// The model index of an optional raw id.
pub open spec fn iid(o: Option<Id>) -> Option<int> {
    match o {
        Some(i) => Some(i@),
        None => None,
    }
}

impl View for Value {
    type V = ValueModel;

    closed spec fn view(&self) -> ValueModel {
        ValueModel { data: self.data as int, id: oid(self.id) }
    }
}

/// A recorded backward rule: the operation that produced a node, with the
/// operand handles and payloads its gradient formula needs. The backward
/// pass interprets these records; together they form the engine's closed,
/// inspectable operator set.
#[derive(Clone, Debug)]
pub enum Op {
    /// `v0 + v1`.
    Add(Option<GradientId>, Option<GradientId>),
    /// Sum of many values.
    AddAll(Vec<Option<GradientId>>),
    /// `v0 - v1`.
    Sub(Option<GradientId>, Option<GradientId>),
    /// `-v`.
    Neg(Option<GradientId>),
    /// `v0 * v1`, capturing both operands for the product rule.
    Mul(Value, Value),
    /// `v + c`.
    Addc(Option<GradientId>),
    /// `v * c`.
    Mulc(Option<GradientId>, i32),
    /// `v ^ c`, capturing the operand for the power rule.
    Powc(Value, u8),
    /// `if v0 >= v1 then r0 else r1`, capturing the compared values and the
    /// handles of the two branches.
    SelectArgmax(Value, Value, Option<GradientId>, Option<GradientId>),
}

impl View for Op {
    type V = OpModel;

    open spec fn view(&self) -> OpModel {
        match self {
            Op::Add(i0, i1) => OpModel::Add(oid(*i0), oid(*i1)),
            Op::AddAll(ids) => OpModel::AddAll(ids@.map_values(|o: Option<GradientId>| oid(o))),
            Op::Sub(i0, i1) => OpModel::Sub(oid(*i0), oid(*i1)),
            Op::Neg(i0) => OpModel::Neg(oid(*i0)),
            Op::Mul(v0, v1) => OpModel::Mul(v0@, v1@),
            Op::Addc(i0) => OpModel::Addc(oid(*i0)),
            Op::Mulc(i0, c) => OpModel::Mulc(oid(*i0), *c as int),
            Op::Powc(v, c) => OpModel::Powc(v@, *c as nat),
            Op::SelectArgmax(v0, v1, i0, i1) => OpModel::SelectArgmax(
                v0@,
                v1@,
                oid(*i0),
                oid(*i1),
            ),
        }
    }
}

impl Op {
    /// The dependency handles this rule contributes gradient to, in order.
    fn targets(&self) -> (r: Vec<Option<Id>>)
        ensures
            r@.map_values(|o: Option<Id>| iid(o)) == model::op_targets(self@),
    {
        let r = match self {
            Op::Add(i0, i1) => two_targets(i0, i1),
            Op::AddAll(ids) => {
                let mut r: Vec<Option<Id>> = Vec::new();
                let mut k: usize = 0;
                while k < ids.len()
                    invariant
                        k <= ids@.len(),
                        r@.len() == k,
                        forall|j: int| 0 <= j < k ==> #[trigger] iid(r@[j]) == oid(ids@[j]),
                    decreases ids@.len() - k,
                {
                    r.push(to_input(&ids[k]));
                    k = k + 1;
                }
                r
            },
            Op::Sub(i0, i1) => two_targets(i0, i1),
            Op::Neg(i0) => {
                let mut r: Vec<Option<Id>> = Vec::new();
                r.push(to_input(i0));
                r
            },
            Op::Mul(v0, v1) => two_targets(&v0.id, &v1.id),
            Op::Addc(i0) => {
                let mut r: Vec<Option<Id>> = Vec::new();
                r.push(to_input(i0));
                r
            },
            Op::Mulc(i0, _) => {
                let mut r: Vec<Option<Id>> = Vec::new();
                r.push(to_input(i0));
                r
            },
            Op::Powc(v, _) => {
                let mut r: Vec<Option<Id>> = Vec::new();
                r.push(to_input(&v.id));
                r
            },
            Op::SelectArgmax(_, _, i0, i1) => two_targets(i0, i1),
        };
        proof {
            assert(r@.map_values(|o: Option<Id>| iid(o)) =~= model::op_targets(self@));
        }
        r
    }
}

/// The raw dependency handle of an optional gradient id.
fn to_input(o: &Option<GradientId>) -> (r: Option<Id>)
    ensures
        iid(r) == oid(*o),
{
    match o {
        Some(g) => Some(crate::store::gid_inner(g)),
        None => None,
    }
}

/// A two-operand dependency list.
fn two_targets(i0: &Option<GradientId>, i1: &Option<GradientId>) -> (r: Vec<Option<Id>>)
    ensures
        r@.len() == 2,
        iid(r@[0]) == oid(*i0),
        iid(r@[1]) == oid(*i1),
{
    let mut r: Vec<Option<Id>> = Vec::new();
    r.push(to_input(i0));
    r.push(to_input(i1));
    r
}

/// A computational node tracked in the graph: its dependency handles and its
/// backward rule. An entry-point variable has neither; a consuming backward
/// pass clears both once the node is finalized.
#[derive(Clone, Debug)]
pub struct Node {
    inputs: Vec<Option<Id>>,
    rule: Option<Op>,
}

impl View for Node {
    type V = NodeModel;

    closed spec fn view(&self) -> NodeModel {
        NodeModel {
            inputs: self.inputs@.map_values(|o: Option<Id>| iid(o)),
            rule: match &self.rule {
                Some(op) => Some(op@),
                None => None,
            },
        }
    }
}

impl Node {
    /// Release the dependency list and the rule with its captured operands.
    pub(crate) fn clear(&mut self)
        ensures
            final(self)@ == (NodeModel { inputs: seq![], rule: None }),
    {
        self.inputs = Vec::new();
        self.rule = None;
        proof {
            assert(final(self)@.inputs =~= Seq::<Option<int>>::empty());
        }
    }
}

/// The model of a node sequence.
pub open spec fn nodes_model(s: Seq<Node>) -> Seq<NodeModel> {
    s.map_values(|n: Node| n@)
}

/// Append an entry-point variable node.
pub(crate) fn alloc_variable(nodes: &mut Vec<Node>, data: i32) -> (v: Value)
    ensures
        ({
            let (n2, vm) = model::tape_variable(nodes_model(old(nodes)@), data as int);
            nodes_model(final(nodes)@) == n2 && v@ == vm
        }),
{
    let id = crate::store::id_at(nodes.len());
    nodes.push(Node { inputs: Vec::new(), rule: None });
    proof {
        assert(final(nodes)@.last()@.inputs =~= Seq::<Option<int>>::empty());
        assert(nodes_model(final(nodes)@) =~~= nodes_model(old(nodes)@).push(
            model::variable_node(),
        ));
    }
    Value { data, id: Some(GradientId::new(id)) }
}

/// Record `rule` unless it describes a pure constant: when every dependency
/// handle is absent, nothing is appended and the result carries no handle.
pub(crate) fn record_node(nodes: &mut Vec<Node>, data: i32, rule: Op) -> (v: Value)
    ensures
        ({
            let (n2, vm) = model::record(nodes_model(old(nodes)@), rule@, data as int);
            nodes_model(final(nodes)@) == n2 && v@ == vm
        }),
{
    let ts = rule.targets();
    let mut all_const = true;
    let mut k: usize = 0;
    while k < ts.len()
        invariant
            k <= ts@.len(),
            all_const == model::all_none(ts@.map_values(|o: Option<Id>| iid(o)).subrange(
                0,
                k as int,
            )),
        decreases ts@.len() - k,
    {
        let ghost pre = ts@.map_values(|o: Option<Id>| iid(o)).subrange(0, k as int);
        let ghost post = ts@.map_values(|o: Option<Id>| iid(o)).subrange(0, k + 1);
        proof {
            assert(post =~= pre.push(iid(ts@[k as int])));
            model::lemma_all_none_push(pre, iid(ts@[k as int]));
        }
        if ts[k].is_some() {
            all_const = false;
        }
        k = k + 1;
    }
    proof {
        assert(ts@.map_values(|o: Option<Id>| iid(o)).subrange(
            0,
            ts@.len() as int,
        ) =~= model::op_targets(rule@));
    }
    if all_const {
        Value { data, id: None }
    } else {
        let id = crate::store::id_at(nodes.len());
        nodes.push(Node { inputs: ts, rule: Some(rule) });
        proof {
            assert(nodes_model(final(nodes)@) =~~= nodes_model(old(nodes)@).push(
                model::node_of(rule@),
            ));
        }
        Value { data, id: Some(GradientId::new(id)) }
    }
}

impl Value {
    /// Create a constant, valid in any graph-based algebra: constants are
    /// never tracked on a tape.
    pub fn constant(data: i32) -> (v: Value)
        ensures
            v@ == ValueModel::constant(data as int),
    {
        Value { data, id: None }
    }

    /// The forward data of a value.
    pub fn data(&self) -> (r: &i32)
        ensures
            *r == self@.data,
    {
        &self.data
    }

    /// The gradient id of a value, if it is tracked.
    pub fn id(&self) -> (r: Option<GradientId>)
        ensures
            oid(r) == self@.id,
    {
        self.id
    }

    /// The untyped dependency handle of a value, used to record dependencies.
    pub fn input(&self) -> (r: Option<Id>)
        ensures
            iid(r) == self@.id,
    {
        match &self.id {
            Some(g) => Some(crate::store::gid_inner(g)),
            None => None,
        }
    }

    /// The gradient id of a value, or the missing-id error for a constant.
    pub fn gid(&self) -> (r: Result<GradientId, Error>)
        ensures
            match self@.id {
                Some(i) => r matches Ok(g) && g@ == i,
                None => r matches Err(Error::MissingId { .. }),
            },
    {
        match self.id {
            Some(g) => Ok(g),
            None => Err(Error::missing_id("gid")),
        }
    }
}

/// First-order tape: gradients are plain data.
#[derive(Clone, Debug, Default)]
pub struct Graph1 {
    pub(crate) nodes: Vec<Node>,
    pub(crate) eval: Eval,
}

/// Higher-order tape: gradients are tracked values on the same tape.
#[derive(Clone, Debug, Default)]
pub struct GraphN {
    pub(crate) nodes: Vec<Node>,
    pub(crate) eval: Eval,
}

impl View for Graph1 {
    type V = Seq<NodeModel>;

    closed spec fn view(&self) -> Seq<NodeModel> {
        nodes_model(self.nodes@)
    }
}

impl View for GraphN {
    type V = Seq<NodeModel>;

    closed spec fn view(&self) -> Seq<NodeModel> {
        nodes_model(self.nodes@)
    }
}

impl Graph1 {
    /// Create a new, empty tape.
    pub fn new() -> (g: Graph1)
        ensures
            g@ == Seq::<NodeModel>::empty(),
    {
        let g = Graph1 { nodes: Vec::new(), eval: Eval::default() };
        proof {
            assert(g@ =~= Seq::<NodeModel>::empty());
        }
        g
    }

    /// The number of nodes recorded so far.
    pub fn len(&self) -> (r: usize)
        ensures
            r == self@.len(),
    {
        self.nodes.len()
    }

    /// The algebra used for forward values.
    pub fn eval(&mut self) -> (r: &mut Eval)
        ensures
            final(self)@ == old(self)@,
    {
        &mut self.eval
    }

    /// Create a computation node (used to define operators). During a
    /// backward pass, `rule` describes how the gradient of this node is
    /// propagated to its (non-constant) operands. A rule all of whose
    /// operand handles are absent describes a pure constant: no node is
    /// allocated at all and the returned value carries no handle.
    pub fn make_node(&mut self, data: i32, rule: Op) -> (v: Value)
        ensures
            ({
                let (n2, vm) = model::record(old(self)@, rule@, data as int);
                final(self)@ == n2 && v@ == vm
            }),
    {
        record_node(&mut self.nodes, data, rule)
    }

    /// Append an entry-point variable (no dependencies, no rule).
    pub(crate) fn make_variable(&mut self, data: i32) -> (v: Value)
        ensures
            ({
                let (n2, vm) = model::tape_variable(old(self)@, data as int);
                final(self)@ == n2 && v@ == vm
            }),
    {
        alloc_variable(&mut self.nodes, data)
    }
}

impl GraphN {
    /// Create a new, empty tape.
    pub fn new() -> (g: GraphN)
        ensures
            g@ == Seq::<NodeModel>::empty(),
    {
        let g = GraphN { nodes: Vec::new(), eval: Eval::default() };
        proof {
            assert(g@ =~= Seq::<NodeModel>::empty());
        }
        g
    }

    /// The number of nodes recorded so far.
    pub fn len(&self) -> (r: usize)
        ensures
            r == self@.len(),
    {
        self.nodes.len()
    }

    /// The algebra used for forward values.
    pub fn eval(&mut self) -> (r: &mut Eval)
        ensures
            final(self)@ == old(self)@,
    {
        &mut self.eval
    }

    /// Create a computation node; see [`Graph1::make_node`].
    pub fn make_node(&mut self, data: i32, rule: Op) -> (v: Value)
        ensures
            ({
                let (n2, vm) = model::record(old(self)@, rule@, data as int);
                final(self)@ == n2 && v@ == vm
            }),
    {
        record_node(&mut self.nodes, data, rule)
    }

    /// Append an entry-point variable (no dependencies, no rule).
    pub(crate) fn make_variable(&mut self, data: i32) -> (v: Value)
        ensures
            ({
                let (n2, vm) = model::tape_variable(old(self)@, data as int);
                final(self)@ == n2 && v@ == vm
            }),
    {
        alloc_variable(&mut self.nodes, data)
    }
}


impl Op {
    /// An identical copy of this rule. The backward pass copies a rule out
    /// of its node before interpreting it, so the tape itself can be grown
    /// or cleared while the rule runs.
    pub(crate) fn duplicate(&self) -> (r: Op)
        ensures
            r@ == self@,
    {
        match self {
            Op::Add(i0, i1) => Op::Add(*i0, *i1),
            Op::AddAll(ids) => {
                let mut v: Vec<Option<GradientId>> = Vec::new();
                let mut k: usize = 0;
                while k < ids.len()
                    invariant
                        k <= ids@.len(),
                        v@.len() == k,
                        forall|j: int| 0 <= j < k ==> #[trigger] v@[j] == ids@[j],
                    decreases ids@.len() - k,
                {
                    v.push(ids[k]);
                    k = k + 1;
                }
                proof {
                    assert(v@ =~= ids@);
                }
                Op::AddAll(v)
            },
            Op::Sub(i0, i1) => Op::Sub(*i0, *i1),
            Op::Neg(i0) => Op::Neg(*i0),
            Op::Mul(v0, v1) => Op::Mul(*v0, *v1),
            Op::Addc(i0) => Op::Addc(*i0),
            Op::Mulc(i0, c) => Op::Mulc(*i0, *c),
            Op::Powc(v, c) => Op::Powc(*v, *c),
            Op::SelectArgmax(v0, v1, i0, i1) => Op::SelectArgmax(*v0, *v1, *i0, *i1),
        }
    }
}

/// The pending marks of a sweep that has only its start handle pending.
fn initial_marks(start: usize) -> (r: Vec<bool>)
    requires
        start < usize::MAX,
    ensures
        r@ == model::initial_pend(start as int),
{
    let mut r: Vec<bool> = Vec::new();
    while r.len() < start
        invariant
            r@.len() <= start,
            forall|j: int| 0 <= j < r@.len() ==> !(#[trigger] r@[j]),
        decreases start - r@.len(),
    {
        r.push(false);
    }
    r.push(true);
    proof {
        assert(r@ =~= model::initial_pend(start as int));
    }
    r
}

/// Mark every dependency of `op` that lies strictly below `i` as pending.
fn mark_rule_targets(marked: &mut Vec<bool>, op: &Op, i: usize)
    requires
        i < old(marked)@.len(),
    ensures
        final(marked)@ == model::mark_targets(old(marked)@, model::op_targets(op@), i as int),
        final(marked)@.len() == old(marked)@.len(),
{
    let ts = op.targets();
    let ghost full = model::op_targets(op@);
    proof {
        assert(full.skip(0) =~= full);
    }
    let mut k: usize = 0;
    while k < ts.len()
        invariant
            k <= ts@.len(),
            ts@.map_values(|o: Option<Id>| iid(o)) == full,
            full.len() == ts@.len(),
            i < marked@.len(),
            marked@.len() == old(marked)@.len(),
            model::mark_targets(old(marked)@, full, i as int) == model::mark_targets(
                marked@,
                full.skip(k as int),
                i as int,
            ),
        decreases ts@.len() - k,
    {
        proof {
            assert(full.skip(k as int)[0] == full[k as int]);
            assert(full.skip(k as int).drop_first() =~= full.skip(k as int + 1));
        }
        match &ts[k] {
            Some(t) => {
                let j = crate::store::id_at_index(t);
                if j < i {
                    marked[j] = true;
                }
            },
            None => {},
        }
        k = k + 1;
    }
    proof {
        assert(full.skip(full.len() as int) =~= Seq::<Option<int>>::empty());
    }
}

/// Interpret one backward rule against plain-data gradients: read the
/// accumulated gradient pieces, combine them with the forward algebra, and
/// accumulate into the store exactly as [`model::apply1`] describes.
#[verifier::loop_isolation(false)]
fn apply_rule1(eval: &mut Eval, store: &mut GenericGradientMap1, op: &Op, g: i32) -> (r: Result<
    (),
    Error,
>)
    ensures
        match model::apply1(op@, g as int, old(store)@) {
            Some(m) => r is Ok && final(store)@ == m,
            None => r matches Err(Error::Overflow { .. }),
        },
{
    match op {
        Op::Add(i0, i1) => {
            if let Some(t) = i0 {
                match store.add_gradient(eval, *t, &g) {
                    Ok(u) => u,
                    Err(e) => {
                        return Err(e);
                    },
                }
            }
            if let Some(t) = i1 {
                match store.add_gradient(eval, *t, &g) {
                    Ok(u) => u,
                    Err(e) => {
                        return Err(e);
                    },
                }
            }
            Ok(())
        },
        Op::AddAll(ids) => {
            let ghost idsm = model::op_targets(op@);
            proof {
                assert(idsm.skip(0) =~= idsm);
                assert(idsm.len() == ids@.len());
            }
            let mut k: usize = 0;
            while k < ids.len()
                invariant
                    k <= ids@.len(),
                    idsm == model::op_targets(op@),
                    idsm.len() == ids@.len(),
                    model::contribute1_all(old(store)@, idsm, g as int)
                        == model::contribute1_all(store@, idsm.skip(k as int), g as int),
                decreases ids@.len() - k,
            {
                proof {
                    assert(idsm[k as int] == oid(ids@[k as int]));
                    assert(idsm.skip(k as int)[0] == idsm[k as int]);
                    assert(idsm.skip(k as int).drop_first() =~= idsm.skip(k as int + 1));
                }
                match &ids[k] {
                    Some(t) => {
                        match store.add_gradient(eval, *t, &g) {
                            Ok(u) => u,
                            Err(e) => {
                                return Err(e);
                            },
                        }
                    },
                    None => {},
                }
                k = k + 1;
            }
            proof {
                assert(idsm.skip(idsm.len() as int) =~= Seq::<Option<int>>::empty());
            }
            Ok(())
        },
        Op::Sub(i0, i1) => {
            if let Some(t) = i0 {
                match store.add_gradient(eval, *t, &g) {
                    Ok(u) => u,
                    Err(e) => {
                        return Err(e);
                    },
                }
            }
            if let Some(t) = i1 {
                let n = match eval.sub(&0, &g) {
                    Ok(n) => n,
                    Err(e) => {
                        return Err(e);
                    },
                };
                match store.add_gradient(eval, *t, &n) {
                    Ok(u) => u,
                    Err(e) => {
                        return Err(e);
                    },
                }
            }
            Ok(())
        },
        Op::Neg(i0) => {
            if let Some(t) = i0 {
                let n = match eval.sub(&0, &g) {
                    Ok(n) => n,
                    Err(e) => {
                        return Err(e);
                    },
                };
                match store.add_gradient(eval, *t, &n) {
                    Ok(u) => u,
                    Err(e) => {
                        return Err(e);
                    },
                }
            }
            Ok(())
        },
        Op::Mul(v0, v1) => {
            if let Some(t) = v0.id() {
                let p = match eval.mul(&g, v1.data()) {
                    Ok(p) => p,
                    Err(e) => {
                        return Err(e);
                    },
                };
                match store.add_gradient(eval, t, &p) {
                    Ok(u) => u,
                    Err(e) => {
                        return Err(e);
                    },
                }
            }
            if let Some(t) = v1.id() {
                let p = match eval.mul(&g, v0.data()) {
                    Ok(p) => p,
                    Err(e) => {
                        return Err(e);
                    },
                };
                match store.add_gradient(eval, t, &p) {
                    Ok(u) => u,
                    Err(e) => {
                        return Err(e);
                    },
                }
            }
            Ok(())
        },
        Op::Addc(i0) => {
            if let Some(t) = i0 {
                match store.add_gradient(eval, *t, &g) {
                    Ok(u) => u,
                    Err(e) => {
                        return Err(e);
                    },
                }
            }
            Ok(())
        },
        Op::Mulc(i0, c) => {
            if let Some(t) = i0 {
                let p = match eval.mul(&g, c) {
                    Ok(p) => p,
                    Err(e) => {
                        return Err(e);
                    },
                };
                match store.add_gradient(eval, *t, &p) {
                    Ok(u) => u,
                    Err(e) => {
                        return Err(e);
                    },
                }
            }
            Ok(())
        },
        Op::Powc(v, c) => {
            if let Some(t) = v.id() {
                if *c == 0 {
                    let zero: i32 = 0;
                    match store.add_gradient(eval, t, &zero) {
                        Ok(u) => u,
                        Err(e) => {
                            return Err(e);
                        },
                    }
                } else {
                    let e_val = match crate::const_arith::pow_i32_checked(*v.data(), *c - 1) {
                        Ok(s) => s,
                        Err(e) => {
                            return Err(e);
                        },
                    };
                    let f = match eval.mul(&e_val, &(*c as i32)) {
                        Ok(f) => f,
                        Err(e) => {
                            return Err(e);
                        },
                    };
                    let p = match eval.mul(&g, &f) {
                        Ok(p) => p,
                        Err(e) => {
                            return Err(e);
                        },
                    };
                    match store.add_gradient(eval, t, &p) {
                        Ok(u) => u,
                        Err(e) => {
                            return Err(e);
                        },
                    }
                }
            }
            Ok(())
        },
        Op::SelectArgmax(v0, v1, i0, i1) => {
            let cond = *v0.data() >= *v1.data();
            if let Some(t) = i0 {
                let g0: i32 = if cond {
                    g
                } else {
                    0
                };
                match store.add_gradient(eval, *t, &g0) {
                    Ok(u) => u,
                    Err(e) => {
                        return Err(e);
                    },
                }
            }
            if let Some(t) = i1 {
                let g1: i32 = if cond {
                    0
                } else {
                    g
                };
                match store.add_gradient(eval, *t, &g1) {
                    Ok(u) => u,
                    Err(e) => {
                        return Err(e);
                    },
                }
            }
            Ok(())
        },
    }
}

impl Graph1 {
    /// Propagate gradients backward, starting at the node `id` with the
    /// seed gradient `gradient`, leaving the tape untouched so it can be
    /// used again. The result is exactly what the backward sweep of the
    /// model computes: every reachable node's rule runs exactly once, on a
    /// gradient that is already complete when it is read.
    #[verifier::loop_isolation(false)]
    pub fn evaluate_gradients(&self, id: GradientId, gradient: i32) -> (r: Result<
        GenericGradientMap1,
        Error,
    >)
        ensures
            id@ >= self@.len() ==> r matches Err(Error::MissingNode { .. }),
            id@ < self@.len() ==> match model::run_backward1(self@, id@, gradient as int) {
                model::Outcome1::Done(m) => r matches Ok(s) && s@ == m,
                model::Outcome1::Overflow => r matches Err(Error::Overflow { .. }),
                model::Outcome1::NoGradient => r matches Err(Error::MissingGradient { .. }),
            },
    {
        let start = crate::store::gid_index(&id);
        if start >= self.nodes.len() {
            return Err(Error::missing_node("evaluate_gradients"));
        }
        let mut eval = self.eval;
        let mut store = GenericGradientMap1::default();
        store.insert(id, gradient);
        proof {
            assert(store@ =~= map![id@ => gradient as int]);
        }
        let mut marked = initial_marks(start);
        let ghost orig = model::run_backward1(self@, id@, gradient as int);
        let mut i: usize = start + 1;
        while i > 0
            invariant
                i <= start + 1,
                start + 1 == marked@.len(),
                start < self@.len(),
                model::backward1(self@, i as int - 1, marked@, store@) == orig,
            decreases i,
        {
            let idx = i - 1;
            if marked[idx] {
                let node = &self.nodes[idx];
                proof {
                    assert(self@[idx as int] == self.nodes@[idx as int]@);
                }
                match &node.rule {
                    None => {},
                    Some(op) => {
                        let gid = GradientId::new(crate::store::id_at(idx));
                        let gopt: Option<i32> = match store.read(gid) {
                            Some(gref) => Some(*gref),
                            None => None,
                        };
                        match gopt {
                            None => {
                                return Err(Error::missing_gradient("evaluate_gradients"));
                            },
                            Some(g) => {
                                match apply_rule1(&mut eval, &mut store, op, g) {
                                    Ok(u) => u,
                                    Err(e) => {
                                        return Err(e);
                                    },
                                }
                                mark_rule_targets(&mut marked, op, idx);
                            },
                        }
                    },
                }
            }
            i = idx;
        }
        Ok(store)
    }

    /// The consuming backward pass: like [`Graph1::evaluate_gradients`],
    /// but finalized nodes have their dependency list and rule cleared as
    /// soon as they are finalized, releasing captured state early. Nodes are
    /// only ever cleared, never otherwise changed.
    #[verifier::loop_isolation(false)]
    fn do_compute_gradients_once(&mut self, id: GradientId, gradient: i32) -> (r: Result<
        GenericGradientMap1,
        Error,
    >)
        ensures
            id@ >= old(self)@.len() ==> r matches Err(Error::MissingNode { .. }),
            id@ < old(self)@.len() ==> match model::run_backward1(
                old(self)@,
                id@,
                gradient as int,
            ) {
                model::Outcome1::Done(m) => r matches Ok(s) && s@ == m && final(self)@[id@]
                    == model::cleared_node(),
                model::Outcome1::Overflow => r matches Err(Error::Overflow { .. }),
                model::Outcome1::NoGradient => r matches Err(Error::MissingGradient { .. }),
            },
            final(self)@.len() == old(self)@.len(),
            forall|j: int|
                0 <= j < final(self)@.len() ==> #[trigger] final(self)@[j] == old(self)@[j]
                    || final(self)@[j] == model::cleared_node(),
            model::wf_tape(old(self)@) && id@ < old(self)@.len() ==> match model::run_backward1(
                old(self)@,
                id@,
                gradient as int,
            ) {
                model::Outcome1::Done(m) => forall|j: int|
                    0 <= j <= id@ && #[trigger] m.contains_key(j) ==> final(self)@[j]
                        == model::cleared_node(),
                _ => true,
            },
    {
        let ghost nodes0 = self@;
        let start = crate::store::gid_index(&id);
        if start >= self.nodes.len() {
            return Err(Error::missing_node("evaluate_gradients_once"));
        }
        let mut eval = self.eval;
        let mut store = GenericGradientMap1::default();
        store.insert(id, gradient);
        proof {
            assert(store@ =~= map![id@ => gradient as int]);
        }
        let mut marked = initial_marks(start);
        let ghost orig = model::run_backward1(nodes0, id@, gradient as int);
        let mut i: usize = start + 1;
        while i > 0
            invariant
                i <= start + 1,
                start + 1 == marked@.len(),
                start < nodes0.len(),
                self@.len() == nodes0.len(),
                marked@[start as int],
                forall|j: int| 0 <= j < i ==> #[trigger] self@[j] == nodes0[j],
                forall|j: int|
                    0 <= j < self@.len() ==> #[trigger] self@[j] == nodes0[j] || self@[j]
                        == model::cleared_node(),
                i <= start ==> self@[start as int] == model::cleared_node(),
                model::wf_tape(nodes0) ==> forall|j: int|
                    #[trigger] store@.contains_key(j) ==> 0 <= j <= start,
                model::wf_tape(nodes0) ==> forall|j: int|
                    #[trigger] store@.contains_key(j) && j < i ==> marked@[j],
                model::wf_tape(nodes0) ==> forall|j: int|
                    #[trigger] store@.contains_key(j) && i <= j <= start ==> self@[j]
                        == model::cleared_node(),
                model::backward1(nodes0, i as int - 1, marked@, store@) == orig,
            decreases i,
        {
            let idx = i - 1;
            if marked[idx] {
                let rule_opt: Option<Op> = {
                    let node = &self.nodes[idx];
                    match &node.rule {
                        Some(op) => Some(op.duplicate()),
                        None => None,
                    }
                };
                proof {
                    assert(self@[idx as int] == self.nodes@[idx as int]@);
                    assert(self@[idx as int] == nodes0[idx as int]);
                }
                match rule_opt {
                    None => {},
                    Some(op) => {
                        let gid = GradientId::new(crate::store::id_at(idx));
                        let gopt: Option<i32> = match store.read(gid) {
                            Some(gref) => Some(*gref),
                            None => None,
                        };
                        match gopt {
                            None => {
                                return Err(Error::missing_gradient("evaluate_gradients_once"));
                            },
                            Some(g) => {
                                let ghost store_pre = store@;
                                match apply_rule1(&mut eval, &mut store, &op, g) {
                                    Ok(u) => u,
                                    Err(e) => {
                                        return Err(e);
                                    },
                                }
                                proof {
                                    if model::wf_tape(nodes0) {
                                        assert(model::op_below(op@, idx as int));
                                        model::lemma_op_below_targets(op@, idx as int);
                                        model::lemma_apply1_new_entries(op@, g as int, store_pre);
                                        model::lemma_mark_targets_sets(
                                            marked@,
                                            model::op_targets(op@),
                                            idx as int,
                                        );
                                    }
                                    model::lemma_mark_targets_keeps(
                                        marked@,
                                        model::op_targets(op@),
                                        idx as int,
                                    );
                                }
                                mark_rule_targets(&mut marked, &op, idx);
                            },
                        }
                    },
                }
                let ghost before_clear = self@;
                self.nodes[idx].clear();
                proof {
                    assert(self@ =~= before_clear.update(idx as int, model::cleared_node()));
                }
            }
            i = idx;
        }
        Ok(store)
    }

    /// Propagate gradients backward, starting at the node `id`: the
    /// consuming variant. The tape is taken by value, so it cannot be used
    /// again afterwards; each finalized node's dependency list and backward
    /// rule are released as soon as the node is finalized.
    pub fn evaluate_gradients_once(self, id: GradientId, gradient: i32) -> (r: Result<
        GenericGradientMap1,
        Error,
    >)
        ensures
            id@ >= self@.len() ==> r matches Err(Error::MissingNode { .. }),
            id@ < self@.len() ==> match model::run_backward1(self@, id@, gradient as int) {
                model::Outcome1::Done(m) => r matches Ok(s) && s@ == m,
                model::Outcome1::Overflow => r matches Err(Error::Overflow { .. }),
                model::Outcome1::NoGradient => r matches Err(Error::MissingGradient { .. }),
            },
    {
        let mut g = self;
        g.do_compute_gradients_once(id, gradient)
    }
}


impl GraphN {
    /// Negation that reports overflow instead of requiring its absence: the
    /// backward interpreter cannot bound the gradients it is handed.
    fn neg_checked(&mut self, v: &Value) -> (r: Result<Value, Error>)
        ensures
            match model::tape_neg(old(self)@, v@) {
                Some((n2, vm)) => final(self)@ == n2 && (r matches Ok(x) && x@ == vm),
                None => final(self)@ == old(self)@ && r matches Err(Error::Overflow { .. }),
            },
    {
        let data = match self.eval().sub(&0, v.data()) {
            Ok(d) => d,
            Err(e) => {
                return Err(e);
            },
        };
        Ok(self.make_node(data, Op::Neg(v.id())))
    }

    /// Constant multiplication that reports overflow instead of requiring
    /// its absence.
    fn mulc_checked(&mut self, v: &Value, c: i32) -> (r: Result<Value, Error>)
        ensures
            match model::tape_mulc(old(self)@, v@, c as int) {
                Some((n2, vm)) => final(self)@ == n2 && (r matches Ok(x) && x@ == vm),
                None => final(self)@ == old(self)@ && r matches Err(Error::Overflow { .. }),
            },
    {
        let data = match self.eval().mul(v.data(), &c) {
            Ok(d) => d,
            Err(e) => {
                return Err(e);
            },
        };
        Ok(self.make_node(data, Op::Mulc(v.id(), c)))
    }

    /// Constant power that reports overflow instead of requiring its
    /// absence.
    fn powc_checked(&mut self, v: &Value, c: u8) -> (r: Result<Value, Error>)
        ensures
            match model::tape_powc(old(self)@, v@, c as nat) {
                Some((n2, vm)) => final(self)@ == n2 && (r matches Ok(x) && x@ == vm),
                None => final(self)@ == old(self)@ && r matches Err(Error::Overflow { .. }),
            },
    {
        let data = match crate::const_arith::pow_i32_checked(*v.data(), c) {
            Ok(d) => d,
            Err(e) => {
                return Err(e);
            },
        };
        Ok(self.make_node(data, Op::Powc(*v, c)))
    }
}

/// Interpret one backward rule against tracked gradients: every derivative
/// value is built by the tape's own operations, appending the gradient's
/// formula to the tape, exactly as [`model::applyn`] describes.
#[verifier::loop_isolation(false)]
fn apply_rule_n(
    graph: &mut GraphN,
    store: &mut crate::store::GenericGradientMapN,
    op: &Op,
    g: &Value,
) -> (r: Result<(), Error>)
    ensures
        match model::applyn(op@, g@, model::StateN { nodes: old(graph)@, store: old(store)@ }) {
            Some(st2) => r is Ok && final(graph)@ == st2.nodes && final(store)@ == st2.store,
            None => r matches Err(Error::Overflow { .. }) && model::extends(
                final(graph)@,
                old(graph)@,
            ),
        },
        model::extends(final(graph)@, old(graph)@),
{
    match op {
        Op::Add(i0, i1) => {
            if let Some(t) = i0 {
                match store.add_gradient(graph, *t, g) {
                    Ok(u) => u,
                    Err(e) => {
                        return Err(e);
                    },
                }
            }
            if let Some(t) = i1 {
                match store.add_gradient(graph, *t, g) {
                    Ok(u) => u,
                    Err(e) => {
                        return Err(e);
                    },
                }
            }
            Ok(())
        },
        Op::AddAll(ids) => {
            let ghost idsm = model::op_targets(op@);
            proof {
                assert(idsm.skip(0) =~= idsm);
                assert(idsm.len() == ids@.len());
            }
            let mut k: usize = 0;
            while k < ids.len()
                invariant
                    k <= ids@.len(),
                    model::extends(graph@, old(graph)@),
                    model::contributen_all(
                        model::StateN { nodes: old(graph)@, store: old(store)@ },
                        idsm,
                        g@,
                    ) == model::contributen_all(
                        model::StateN { nodes: graph@, store: store@ },
                        idsm.skip(k as int),
                        g@,
                    ),
                decreases ids@.len() - k,
            {
                proof {
                    assert(idsm[k as int] == oid(ids@[k as int]));
                    assert(idsm.skip(k as int)[0] == idsm[k as int]);
                    assert(idsm.skip(k as int).drop_first() =~= idsm.skip(k as int + 1));
                }
                match &ids[k] {
                    Some(t) => {
                        match store.add_gradient(graph, *t, g) {
                            Ok(u) => u,
                            Err(e) => {
                                return Err(e);
                            },
                        }
                    },
                    None => {},
                }
                k = k + 1;
            }
            proof {
                assert(idsm.skip(idsm.len() as int) =~= Seq::<Option<int>>::empty());
            }
            Ok(())
        },
        Op::Sub(i0, i1) => {
            if let Some(t) = i0 {
                match store.add_gradient(graph, *t, g) {
                    Ok(u) => u,
                    Err(e) => {
                        return Err(e);
                    },
                }
            }
            if let Some(t) = i1 {
                let n = match graph.neg_checked(g) {
                    Ok(n) => n,
                    Err(e) => {
                        return Err(e);
                    },
                };
                match store.add_gradient(graph, *t, &n) {
                    Ok(u) => u,
                    Err(e) => {
                        return Err(e);
                    },
                }
            }
            Ok(())
        },
        Op::Neg(i0) => {
            if let Some(t) = i0 {
                let n = match graph.neg_checked(g) {
                    Ok(n) => n,
                    Err(e) => {
                        return Err(e);
                    },
                };
                match store.add_gradient(graph, *t, &n) {
                    Ok(u) => u,
                    Err(e) => {
                        return Err(e);
                    },
                }
            }
            Ok(())
        },
        Op::Mul(v0, v1) => {
            if let Some(t) = v0.id() {
                let p = match graph.mul(g, v1) {
                    Ok(p) => p,
                    Err(e) => {
                        return Err(e);
                    },
                };
                match store.add_gradient(graph, t, &p) {
                    Ok(u) => u,
                    Err(e) => {
                        return Err(e);
                    },
                }
            }
            if let Some(t) = v1.id() {
                let p = match graph.mul(v0, g) {
                    Ok(p) => p,
                    Err(e) => {
                        return Err(e);
                    },
                };
                match store.add_gradient(graph, t, &p) {
                    Ok(u) => u,
                    Err(e) => {
                        return Err(e);
                    },
                }
            }
            Ok(())
        },
        Op::Addc(i0) => {
            if let Some(t) = i0 {
                match store.add_gradient(graph, *t, g) {
                    Ok(u) => u,
                    Err(e) => {
                        return Err(e);
                    },
                }
            }
            Ok(())
        },
        Op::Mulc(i0, c) => {
            if let Some(t) = i0 {
                let p = match graph.mulc_checked(g, *c) {
                    Ok(p) => p,
                    Err(e) => {
                        return Err(e);
                    },
                };
                match store.add_gradient(graph, *t, &p) {
                    Ok(u) => u,
                    Err(e) => {
                        return Err(e);
                    },
                }
            }
            Ok(())
        },
        Op::Powc(v, c) => {
            if let Some(t) = v.id() {
                if *c == 0 {
                    let z = Value::constant(0);
                    match store.add_gradient(graph, t, &z) {
                        Ok(u) => u,
                        Err(e) => {
                            return Err(e);
                        },
                    }
                } else {
                    let e_val = match graph.powc_checked(v, *c - 1) {
                        Ok(x) => x,
                        Err(e) => {
                            return Err(e);
                        },
                    };
                    let f = match graph.mulc_checked(&e_val, *c as i32) {
                        Ok(x) => x,
                        Err(e) => {
                            return Err(e);
                        },
                    };
                    let p = match graph.mul(&f, g) {
                        Ok(p) => p,
                        Err(e) => {
                            return Err(e);
                        },
                    };
                    match store.add_gradient(graph, t, &p) {
                        Ok(u) => u,
                        Err(e) => {
                            return Err(e);
                        },
                    }
                }
            }
            Ok(())
        },
        Op::SelectArgmax(v0, v1, i0, i1) => {
            if let Some(t) = i0 {
                let g0 = match graph.select_argmax(v0, v1, Some(g), None) {
                    Ok(x) => x,
                    Err(_) => vstd::pervasive::unreached(),
                };
                match store.add_gradient(graph, *t, &g0) {
                    Ok(u) => u,
                    Err(e) => {
                        return Err(e);
                    },
                }
            }
            if let Some(t) = i1 {
                let g1 = match graph.select_argmax(v0, v1, None, Some(g)) {
                    Ok(x) => x,
                    Err(_) => vstd::pervasive::unreached(),
                };
                match store.add_gradient(graph, *t, &g1) {
                    Ok(u) => u,
                    Err(e) => {
                        return Err(e);
                    },
                }
            }
            Ok(())
        },
    }
}

impl GraphN {
    /// Propagate gradients backward, starting at the node `id` with the
    /// tracked seed `gradient`. Gradients are computed as tape values whose
    /// own formulas are appended to this tape, so they can be
    /// differentiated later. The sweep's scheduling is fixed by the indices
    /// that existed when the pass began; nodes appended during the pass all
    /// lie above the start handle and are never revisited.
    #[verifier::loop_isolation(false)]
    pub fn compute_gradients(&mut self, id: GradientId, gradient: Value) -> (r: Result<
        crate::store::GenericGradientMapN,
        Error,
    >)
        ensures
            id@ >= old(self)@.len() ==> (r matches Err(Error::MissingNode { .. }) && final(self)@
                == old(self)@),
            id@ < old(self)@.len() ==> match model::run_backwardn(old(self)@, id@, gradient@) {
                model::OutcomeN::Done(ns, m) => r matches Ok(s) && s@ == m && final(self)@ == ns,
                model::OutcomeN::Overflow => r matches Err(Error::Overflow { .. }),
                model::OutcomeN::NoGradient => r matches Err(Error::MissingGradient { .. }),
            },
            model::extends(final(self)@, old(self)@),
    {
        let start = crate::store::gid_index(&id);
        if start >= self.nodes.len() {
            return Err(Error::missing_node("compute_gradients"));
        }
        let mut store = crate::store::GenericGradientMapN::default();
        store.insert(id, gradient);
        proof {
            assert(store@ =~= map![id@ => gradient@]);
        }
        let mut marked = initial_marks(start);
        let ghost orig = model::run_backwardn(old(self)@, id@, gradient@);
        let mut i: usize = start + 1;
        while i > 0
            invariant
                i <= start + 1,
                start + 1 == marked@.len(),
                start < old(self)@.len(),
                model::extends(self@, old(self)@),
                model::backwardn(
                    model::StateN { nodes: self@, store: store@ },
                    i as int - 1,
                    marked@,
                ) == orig,
            decreases i,
        {
            let idx = i - 1;
            if marked[idx] {
                let rule_opt: Option<Op> = {
                    let node = &self.nodes[idx];
                    match &node.rule {
                        Some(op) => Some(op.duplicate()),
                        None => None,
                    }
                };
                proof {
                    assert(self@[idx as int] == self.nodes@[idx as int]@);
                }
                match rule_opt {
                    None => {},
                    Some(op) => {
                        let gid = GradientId::new(crate::store::id_at(idx));
                        let gopt: Option<Value> = {
                            let gref: Option<&Value> = store.read(gid);
                            match gref {
                                Some(gv) => Some(*gv),
                                None => None,
                            }
                        };
                        match gopt {
                            None => {
                                return Err(Error::missing_gradient("compute_gradients"));
                            },
                            Some(g) => {
                                match apply_rule_n(self, &mut store, &op, &g) {
                                    Ok(u) => u,
                                    Err(e) => {
                                        return Err(e);
                                    },
                                }
                                proof {
                                    model::lemma_mark_targets_keeps(
                                        marked@,
                                        model::op_targets(op@),
                                        idx as int,
                                    );
                                }
                                mark_rule_targets(&mut marked, &op, idx);
                            },
                        }
                    },
                }
            }
            i = idx;
        }
        Ok(store)
    }
}

} // verus!
