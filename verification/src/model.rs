//! Mathematical model of the tape and of backward propagation.
//!
//! Every operation that touches a tape is specified here as a pure function
//! on a sequence of node records. The executable tape in [`crate::graph`]
//! promises in its contracts to agree with these functions exactly.
//!
//! Arithmetic is modelled over unbounded integers; a computation whose exec
//! counterpart would leave the `i32` range is mapped to `None` (or to
//! [`Outcome1::Overflow`]), so the contracts state precisely when the
//! executable code returns an overflow error.

use vstd::prelude::*;

verus! {

/// Does `x` fit in the machine integer range of tape data?
pub open spec fn in_i32(x: int) -> bool {
    i32::MIN <= x <= i32::MAX
}

/// The product of two machine integers always fits the wide range used to
/// compute it.
pub proof fn lemma_i32_product_fits(a: int, b: int)
    by (nonlinear_arith)
    requires
        in_i32(a),
        in_i32(b),
    ensures
        i64::MIN <= a * b <= i64::MAX,
{
}

/// Model of a tracked value: its forward data and its optional node index.
pub ghost struct ValueModel {
    pub data: int,
    pub id: Option<int>,
}

impl ValueModel {
    /// A constant: data without a handle.
    pub open spec fn constant(data: int) -> ValueModel {
        ValueModel { data, id: None }
    }
}

/// Model of a recorded backward rule: the operation record interpreted by
/// the backward pass, with the operand handles and payloads it captured.
pub ghost enum OpModel {
    /// `v0 + v1`; propagates the incoming gradient to both operands.
    Add(Option<int>, Option<int>),
    /// Sum of many values; propagates the incoming gradient to every operand.
    AddAll(Seq<Option<int>>),
    /// `v0 - v1`; propagates the gradient to the first operand and its
    /// negation to the second.
    Sub(Option<int>, Option<int>),
    /// `-v`; propagates the negated gradient.
    Neg(Option<int>),
    /// `v0 * v1`; each operand receives the gradient times the other's
    /// forward value.
    Mul(ValueModel, ValueModel),
    /// `v + c`; propagates the gradient unchanged.
    Addc(Option<int>),
    /// `v * c`; propagates the gradient scaled by `c`.
    Mulc(Option<int>, int),
    /// `v ^ c`; the operand receives `c * v^(c-1)` times the gradient.
    Powc(ValueModel, nat),
    /// `if v0 >= v1 then r0 else r1`; the branch that was taken receives the
    /// gradient, the other receives zero.
    SelectArgmax(ValueModel, ValueModel, Option<int>, Option<int>),
}

/// Model of one node record on the tape.
pub ghost struct NodeModel {
    /// The recorded dependency handles, in operand order.
    pub inputs: Seq<Option<int>>,
    /// The backward rule, absent for entry-point variables and for nodes
    /// cleared by a consuming backward pass.
    pub rule: Option<OpModel>,
}

/// The handles a backward rule contributes gradient to, in the order the
/// contributions are made.
pub open spec fn op_targets(op: OpModel) -> Seq<Option<int>> {
    match op {
        OpModel::Add(i0, i1) => seq![i0, i1],
        OpModel::AddAll(ids) => ids,
        OpModel::Sub(i0, i1) => seq![i0, i1],
        OpModel::Neg(i0) => seq![i0],
        OpModel::Mul(v0, v1) => seq![v0.id, v1.id],
        OpModel::Addc(i0) => seq![i0],
        OpModel::Mulc(i0, _) => seq![i0],
        OpModel::Powc(v, _) => seq![v.id],
        OpModel::SelectArgmax(_, _, i0, i1) => seq![i0, i1],
    }
}

/// Appending one more handle keeps a target list all-absent exactly when
/// the list was all-absent and the new handle is absent.
pub proof fn lemma_all_none_push(s: Seq<Option<int>>, x: Option<int>)
    ensures
        all_none(s.push(x)) == (all_none(s) && x is None),
{
    let p = s.push(x);
    if all_none(s) && x is None {
        assert forall|i: int| 0 <= i < p.len() implies #[trigger] p[i] is None by {
            if i < s.len() {
                assert(p[i] == s[i]);
            } else {
                assert(p[i] == x);
            }
        }
    }
    if all_none(p) {
        assert forall|i: int| 0 <= i < s.len() implies #[trigger] s[i] is None by {
            assert(p[i] == s[i]);
            assert(p[i] is None);
        }
        assert(p[s.len() as int] == x);
    }
}

/// A fresh node holding the given rule.
pub open spec fn node_of(op: OpModel) -> NodeModel {
    NodeModel { inputs: op_targets(op), rule: Some(op) }
}

/// A node whose dependency list and rule have been released: what a
/// consuming backward pass leaves behind, and also the shape of a fresh
/// entry-point variable.
pub open spec fn cleared_node() -> NodeModel {
    NodeModel { inputs: seq![], rule: None }
}

/// A fresh entry-point variable node.
pub open spec fn variable_node() -> NodeModel {
    NodeModel { inputs: seq![], rule: None }
}

/// Are all handles in `ids` absent? Such a rule would describe a pure
/// constant, which is never recorded.
pub open spec fn all_none(ids: Seq<Option<int>>) -> bool {
    forall|i: int| 0 <= i < ids.len() ==> #[trigger] ids[i] is None
}

// ---------------------------------------------------------------------------
// Tape operations.
//
// Each takes the current node sequence and the operand models, and returns
// the grown node sequence and the resulting value, or `None` when the
// forward data would overflow. A result all of whose operand handles are
// absent is a constant and appends nothing.
// ---------------------------------------------------------------------------

/// Append `node`, returning the new sequence and the handle of the new node.
pub open spec fn append_node(nodes: Seq<NodeModel>, node: NodeModel) -> (Seq<NodeModel>, int) {
    (nodes.push(node), nodes.len() as int)
}

/// Record `op` unless it describes a pure constant.
pub open spec fn record(nodes: Seq<NodeModel>, op: OpModel, data: int) -> (
    Seq<NodeModel>,
    ValueModel,
) {
    if all_none(op_targets(op)) {
        (nodes, ValueModel::constant(data))
    } else {
        let (nodes2, id) = append_node(nodes, node_of(op));
        (nodes2, ValueModel { data, id: Some(id) })
    }
}

/// `variable`: always records a node, even though it has no rule.
pub open spec fn tape_variable(nodes: Seq<NodeModel>, data: int) -> (Seq<NodeModel>, ValueModel) {
    let (nodes2, id) = append_node(nodes, variable_node());
    (nodes2, ValueModel { data, id: Some(id) })
}

/// `add`: sum of two values.
pub open spec fn tape_add(nodes: Seq<NodeModel>, a: ValueModel, b: ValueModel) -> Option<
    (Seq<NodeModel>, ValueModel),
> {
    if !in_i32(a.data + b.data) {
        None
    } else {
        Some(record(nodes, OpModel::Add(a.id, b.id), a.data + b.data))
    }
}

/// The partial sums of `s`, checked against the machine range at every step,
/// the way a left-to-right chain of checked additions computes them.
pub open spec fn sum_checked(s: Seq<int>) -> Option<int>
    decreases s.len(),
{
    if s.len() == 0 {
        Some(0)
    } else if s.len() == 1 {
        Some(s[0])
    } else {
        match sum_checked(s.drop_last()) {
            None => None,
            Some(p) => if in_i32(p + s.last()) {
                Some(p + s.last())
            } else {
                None
            },
        }
    }
}

/// `add_all`: sum of one or more values.
pub open spec fn tape_add_all(nodes: Seq<NodeModel>, vs: Seq<ValueModel>) -> Option<
    (Seq<NodeModel>, ValueModel),
> {
    match sum_checked(vs.map(|i: int, v: ValueModel| v.data)) {
        None => None,
        Some(total) => Some(record(nodes, OpModel::AddAll(vs.map(|i: int, v: ValueModel| v.id)), total)),
    }
}

/// `sub`: difference of two values.
pub open spec fn tape_sub(nodes: Seq<NodeModel>, a: ValueModel, b: ValueModel) -> Option<
    (Seq<NodeModel>, ValueModel),
> {
    if !in_i32(a.data - b.data) {
        None
    } else {
        Some(record(nodes, OpModel::Sub(a.id, b.id), a.data - b.data))
    }
}

/// `neg`: negation of a value.
pub open spec fn tape_neg(nodes: Seq<NodeModel>, a: ValueModel) -> Option<
    (Seq<NodeModel>, ValueModel),
> {
    if !in_i32(-a.data) {
        None
    } else {
        Some(record(nodes, OpModel::Neg(a.id), -a.data))
    }
}

/// `mul`: product of two values.
pub open spec fn tape_mul(nodes: Seq<NodeModel>, a: ValueModel, b: ValueModel) -> Option<
    (Seq<NodeModel>, ValueModel),
> {
    if !in_i32(a.data * b.data) {
        None
    } else {
        Some(record(nodes, OpModel::Mul(a, b), a.data * b.data))
    }
}

/// `addc`: value plus a constant.
pub open spec fn tape_addc(nodes: Seq<NodeModel>, a: ValueModel, c: int) -> Option<
    (Seq<NodeModel>, ValueModel),
> {
    if !in_i32(a.data + c) {
        None
    } else {
        Some(record(nodes, OpModel::Addc(a.id), a.data + c))
    }
}

/// `mulc`: value times a constant.
pub open spec fn tape_mulc(nodes: Seq<NodeModel>, a: ValueModel, c: int) -> Option<
    (Seq<NodeModel>, ValueModel),
> {
    if !in_i32(a.data * c) {
        None
    } else {
        Some(record(nodes, OpModel::Mulc(a.id, c), a.data * c))
    }
}

/// `b ^ e` over unbounded integers.
pub open spec fn pow_int(b: int, e: nat) -> int
    decreases e,
{
    if e == 0 {
        1
    } else {
        b * pow_int(b, (e - 1) as nat)
    }
}

/// Every power of `b` up to `e` fits the machine range, which is what a
/// chain of checked multiplications requires.
pub open spec fn pow_fits(b: int, e: nat) -> bool {
    forall|k: nat| k <= e ==> in_i32(#[trigger] pow_int(b, k))
}

/// `powc`: value raised to a constant power.
pub open spec fn tape_powc(nodes: Seq<NodeModel>, a: ValueModel, c: nat) -> Option<
    (Seq<NodeModel>, ValueModel),
> {
    if !pow_fits(a.data, c) {
        None
    } else {
        Some(record(nodes, OpModel::Powc(a, c), pow_int(a.data, c)))
    }
}

/// The forward result of a selection: the branch value, or zero for an
/// absent branch.
pub open spec fn select_data(cond: bool, r0: Option<ValueModel>, r1: Option<ValueModel>) -> int {
    if cond {
        match r0 {
            Some(v) => v.data,
            None => 0,
        }
    } else {
        match r1 {
            Some(v) => v.data,
            None => 0,
        }
    }
}

/// The handle of an optional operand.
pub open spec fn opt_id(r: Option<ValueModel>) -> Option<int> {
    match r {
        Some(v) => v.id,
        None => None,
    }
}

/// `select_argmax`: `if v0 >= v1 then r0 else r1`, with absent branches read
/// as zero. Only the branch values are dependencies; the compared values are
/// captured for the backward rule but receive no gradient.
pub open spec fn tape_select(
    nodes: Seq<NodeModel>,
    v0: ValueModel,
    v1: ValueModel,
    r0: Option<ValueModel>,
    r1: Option<ValueModel>,
) -> (Seq<NodeModel>, ValueModel) {
    record(
        nodes,
        OpModel::SelectArgmax(v0, v1, opt_id(r0), opt_id(r1)),
        select_data(v0.data >= v1.data, r0, r1),
    )
}

// ---------------------------------------------------------------------------
// First-order backward propagation.
//
// The accumulation store maps node indices to plain gradients. Indices are
// processed from the start handle downward; an index is processed when some
// already-processed consumer marked it pending.
// ---------------------------------------------------------------------------

/// Add `v` into the store at handle `t`: insert when fresh, accumulate by
/// addition otherwise. `None` models an absent handle (a constant operand),
/// which receives nothing.
pub open spec fn contribute1(store: Map<int, int>, t: Option<int>, v: int) -> Option<
    Map<int, int>,
> {
    match t {
        None => Some(store),
        Some(i) => if store.contains_key(i) {
            if in_i32(store[i] + v) {
                Some(store.insert(i, store[i] + v))
            } else {
                None
            }
        } else {
            Some(store.insert(i, v))
        },
    }
}

/// Contribute the negated gradient, as the rules for `sub` and `neg` do.
/// The negation is only computed (and only checked) when the handle exists.
pub open spec fn contribute1_neg(store: Map<int, int>, t: Option<int>, g: int) -> Option<
    Map<int, int>,
> {
    match t {
        None => Some(store),
        Some(i) => if !in_i32(-g) {
            None
        } else {
            contribute1(store, t, -g)
        },
    }
}

/// Contribute the gradient scaled by `c`, for the handle `t` only.
pub open spec fn contribute1_scaled(store: Map<int, int>, t: Option<int>, g: int, c: int) -> Option<
    Map<int, int>,
> {
    match t {
        None => Some(store),
        Some(i) => if !in_i32(g * c) {
            None
        } else {
            contribute1(store, t, g * c)
        },
    }
}

/// Contribute `g` to every handle in `ids`, left to right.
pub open spec fn contribute1_all(store: Map<int, int>, ids: Seq<Option<int>>, g: int) -> Option<
    Map<int, int>,
>
    decreases ids.len(),
{
    if ids.len() == 0 {
        Some(store)
    } else {
        match contribute1(store, ids[0], g) {
            None => None,
            Some(s2) => contribute1_all(s2, ids.drop_first(), g),
        }
    }
}

/// Run one backward rule on the incoming gradient `g`, updating the store.
/// `None` models an arithmetic overflow inside the rule.
pub open spec fn apply1(op: OpModel, g: int, store: Map<int, int>) -> Option<Map<int, int>> {
    match op {
        OpModel::Add(i0, i1) => match contribute1(store, i0, g) {
            None => None,
            Some(s2) => contribute1(s2, i1, g),
        },
        OpModel::AddAll(ids) => contribute1_all(store, ids, g),
        OpModel::Sub(i0, i1) => match contribute1(store, i0, g) {
            None => None,
            Some(s2) => contribute1_neg(s2, i1, g),
        },
        OpModel::Neg(i0) => contribute1_neg(store, i0, g),
        OpModel::Mul(a, b) => match contribute1_scaled(store, a.id, g, b.data) {
            None => None,
            Some(s2) => contribute1_scaled(s2, b.id, g, a.data),
        },
        OpModel::Addc(i0) => contribute1(store, i0, g),
        OpModel::Mulc(i0, c) => contribute1_scaled(store, i0, g, c),
        OpModel::Powc(v, c) => match v.id {
            None => Some(store),
            Some(i) => if c == 0 {
                contribute1(store, v.id, 0)
            } else {
                if !pow_fits(v.data, (c - 1) as nat) {
                    None
                } else {
                    let e = pow_int(v.data, (c - 1) as nat);
                    if !in_i32(e * c) {
                        None
                    } else {
                        contribute1_scaled(store, v.id, g, e * c)
                    }
                }
            },
        },
        OpModel::SelectArgmax(v0, v1, i0, i1) => {
            let cond = v0.data >= v1.data;
            match contribute1(
                store,
                i0,
                if cond {
                    g
                } else {
                    0
                },
            ) {
                None => None,
                Some(s2) => contribute1(
                    s2,
                    i1,
                    if cond {
                        0
                    } else {
                        g
                    },
                ),
            }
        },
    }
}

/// Mark every target of `targets` that lies strictly below `i` as pending.
/// A target at or above `i` is stale: the sweep has already passed it, so
/// marking it would have no effect, exactly as in the executable pass.
pub open spec fn mark_targets(pend: Seq<bool>, targets: Seq<Option<int>>, i: int) -> Seq<bool>
    decreases targets.len(),
{
    if targets.len() == 0 {
        pend
    } else {
        let p2 = match targets[0] {
            Some(j) => if 0 <= j < i {
                pend.update(j, true)
            } else {
                pend
            },
            None => pend,
        };
        mark_targets(p2, targets.drop_first(), i)
    }
}

/// Marking dependencies pending never unmarks anything and never changes
/// the length of the pending marks.
pub proof fn lemma_mark_targets_keeps(pend: Seq<bool>, targets: Seq<Option<int>>, i: int)
    requires
        i <= pend.len(),
    ensures
        mark_targets(pend, targets, i).len() == pend.len(),
        forall|j: int|
            0 <= j < pend.len() && pend[j] ==> #[trigger] mark_targets(pend, targets, i)[j],
    decreases targets.len(),
{
    if targets.len() == 0 {
    } else {
        let p2 = match targets[0] {
            Some(j) => if 0 <= j < i {
                pend.update(j, true)
            } else {
                pend
            },
            None => pend,
        };
        assert(mark_targets(pend, targets, i) == mark_targets(p2, targets.drop_first(), i));
        assert(p2.len() == pend.len());
        lemma_mark_targets_keeps(p2, targets.drop_first(), i);
        assert forall|j: int|
            0 <= j < pend.len() && pend[j] implies #[trigger] mark_targets(pend, targets, i)[j] by {
            match targets[0] {
                Some(jt) => {
                    if 0 <= jt < i && jt < pend.len() {
                        if j == jt {
                            assert(p2[j]);
                        } else {
                            assert(p2[j] == pend[j]);
                        }
                    } else {
                        assert(p2[j] == pend[j]);
                    }
                },
                None => {
                    assert(p2[j] == pend[j]);
                },
            }
            assert(p2[j]);
            assert(mark_targets(p2, targets.drop_first(), i)[j]);
        }
    }
}

/// What a first-order backward pass produces.
pub ghost enum Outcome1 {
    /// The finished accumulation store.
    Done(Map<int, int>),
    /// Some accumulation or rule left the machine range.
    Overflow,
    /// A pending node carried a rule but had no accumulated gradient.
    NoGradient,
}

/// Sweep indices `i, i-1, ..., 0`, finalizing each pending one: run its rule
/// on the gradient accumulated so far and mark its dependencies pending.
pub open spec fn backward1(
    nodes: Seq<NodeModel>,
    i: int,
    pend: Seq<bool>,
    store: Map<int, int>,
) -> Outcome1
    decreases i + 1,
{
    if i < 0 {
        Outcome1::Done(store)
    } else if pend[i] {
        match nodes[i].rule {
            None => backward1(nodes, i - 1, pend, store),
            Some(op) => if !store.contains_key(i) {
                Outcome1::NoGradient
            } else {
                match apply1(op, store[i], store) {
                    None => Outcome1::Overflow,
                    Some(s2) => backward1(
                        nodes,
                        i - 1,
                        mark_targets(pend, op_targets(op), i),
                        s2,
                    ),
                }
            },
        }
    } else {
        backward1(nodes, i - 1, pend, store)
    }
}

/// Only the start handle pending, in a sweep over `0 ..= start`.
pub open spec fn initial_pend(start: int) -> Seq<bool> {
    Seq::new((start + 1) as nat, |j: int| j == start)
}

/// A whole first-order backward pass from `start` with seed gradient `seed`.
pub open spec fn run_backward1(nodes: Seq<NodeModel>, start: int, seed: int) -> Outcome1 {
    backward1(nodes, start, initial_pend(start), map![start => seed])
}

// ---------------------------------------------------------------------------
// Higher-order backward propagation.
//
// Gradients are tracked values, and combining them appends new nodes to the
// very tape being walked. The sweep itself only ever visits indices that
// existed when the pass began; the freshly appended nodes all lie above the
// start handle and are never revisited.
// ---------------------------------------------------------------------------

/// The evolving state of a higher-order pass: the growing tape and the
/// accumulation store of tracked gradients.
pub ghost struct StateN {
    pub nodes: Seq<NodeModel>,
    pub store: Map<int, ValueModel>,
}

/// Add the tracked gradient `v` into the store at handle `t`, combining with
/// the tape's own `add` when an entry exists, which may append a node.
pub open spec fn contributen(st: StateN, t: Option<int>, v: ValueModel) -> Option<StateN> {
    match t {
        None => Some(st),
        Some(i) => if st.store.contains_key(i) {
            match tape_add(st.nodes, st.store[i], v) {
                None => None,
                Some((nodes2, sum)) => Some(
                    StateN { nodes: nodes2, store: st.store.insert(i, sum) },
                ),
            }
        } else {
            Some(StateN { nodes: st.nodes, store: st.store.insert(i, v) })
        },
    }
}

/// Contribute the tape-negated gradient, when the handle exists.
pub open spec fn contributen_neg(st: StateN, t: Option<int>, g: ValueModel) -> Option<StateN> {
    match t {
        None => Some(st),
        Some(i) => match tape_neg(st.nodes, g) {
            None => None,
            Some((nodes2, ng)) => contributen(StateN { nodes: nodes2, store: st.store }, t, ng),
        },
    }
}

/// Contribute `g * v` built on the tape, when the handle exists.
pub open spec fn contributen_mul(
    st: StateN,
    t: Option<int>,
    a: ValueModel,
    b: ValueModel,
) -> Option<StateN> {
    match t {
        None => Some(st),
        Some(i) => match tape_mul(st.nodes, a, b) {
            None => None,
            Some((nodes2, p)) => contributen(StateN { nodes: nodes2, store: st.store }, t, p),
        },
    }
}

/// Contribute `g` to every handle in `ids`, left to right.
pub open spec fn contributen_all(st: StateN, ids: Seq<Option<int>>, g: ValueModel) -> Option<StateN>
    decreases ids.len(),
{
    if ids.len() == 0 {
        Some(st)
    } else {
        match contributen(st, ids[0], g) {
            None => None,
            Some(st2) => contributen_all(st2, ids.drop_first(), g),
        }
    }
}

/// Run one backward rule on the tracked gradient `g`. Every derivative value
/// is itself built on the tape, so later passes can differentiate it again.
pub open spec fn applyn(op: OpModel, g: ValueModel, st: StateN) -> Option<StateN> {
    match op {
        OpModel::Add(i0, i1) => match contributen(st, i0, g) {
            None => None,
            Some(st2) => contributen(st2, i1, g),
        },
        OpModel::AddAll(ids) => contributen_all(st, ids, g),
        OpModel::Sub(i0, i1) => match contributen(st, i0, g) {
            None => None,
            Some(st2) => contributen_neg(st2, i1, g),
        },
        OpModel::Neg(i0) => contributen_neg(st, i0, g),
        OpModel::Mul(a, b) => match contributen_mul(st, a.id, g, b) {
            None => None,
            Some(st2) => contributen_mul(st2, b.id, a, g),
        },
        OpModel::Addc(i0) => contributen(st, i0, g),
        OpModel::Mulc(i0, c) => match i0 {
            None => Some(st),
            Some(_) => match tape_mulc(st.nodes, g, c) {
                None => None,
                Some((nodes2, p)) => contributen(StateN { nodes: nodes2, store: st.store }, i0, p),
            },
        },
        OpModel::Powc(v, c) => match v.id {
            None => Some(st),
            Some(_) => if c == 0 {
                contributen(st, v.id, ValueModel::constant(0))
            } else {
                match tape_powc(st.nodes, v, (c - 1) as nat) {
                    None => None,
                    Some((nodes2, e)) => match tape_mulc(nodes2, e, c as int) {
                        None => None,
                        Some((nodes3, f)) => contributen_mul(
                            StateN { nodes: nodes3, store: st.store },
                            v.id,
                            f,
                            g,
                        ),
                    },
                }
            },
        },
        OpModel::SelectArgmax(v0, v1, i0, i1) => {
            let st1 = match i0 {
                None => Some(st),
                Some(_) => {
                    let (nodes2, g0) = tape_select(st.nodes, v0, v1, Some(g), None);
                    contributen(StateN { nodes: nodes2, store: st.store }, i0, g0)
                },
            };
            match st1 {
                None => None,
                Some(st2) => match i1 {
                    None => Some(st2),
                    Some(_) => {
                        let (nodes3, g1) = tape_select(st2.nodes, v0, v1, None, Some(g));
                        contributen(StateN { nodes: nodes3, store: st2.store }, i1, g1)
                    },
                },
            }
        },
    }
}

/// What a higher-order backward pass produces.
pub ghost enum OutcomeN {
    /// The grown tape and the finished store of tracked gradients.
    Done(Seq<NodeModel>, Map<int, ValueModel>),
    /// Some forward computation of a gradient left the machine range.
    Overflow,
    /// A pending node carried a rule but had no accumulated gradient.
    NoGradient,
}

/// Sweep indices `i, i-1, ..., 0` of a growing tape. Rules are read from the
/// current tape, which is sound because a sweep only reads indices below the
/// start handle and the tape only grows above it.
pub open spec fn backwardn(st: StateN, i: int, pend: Seq<bool>) -> OutcomeN
    decreases i + 1,
{
    if i < 0 {
        OutcomeN::Done(st.nodes, st.store)
    } else if pend[i] {
        match st.nodes[i].rule {
            None => backwardn(st, i - 1, pend),
            Some(op) => if !st.store.contains_key(i) {
                OutcomeN::NoGradient
            } else {
                match applyn(op, st.store[i], st) {
                    None => OutcomeN::Overflow,
                    Some(st2) => backwardn(st2, i - 1, mark_targets(pend, op_targets(op), i)),
                }
            },
        }
    } else {
        backwardn(st, i - 1, pend)
    }
}

/// A whole higher-order backward pass from `start` with seed gradient `seed`.
pub open spec fn run_backwardn(nodes: Seq<NodeModel>, start: int, seed: ValueModel) -> OutcomeN {
    backwardn(
        StateN { nodes, store: map![start => seed] },
        start,
        initial_pend(start),
    )
}

/// `post` extends `pre`: the tape only ever grows, and the nodes that were
/// already recorded are untouched.
pub open spec fn extends(post: Seq<NodeModel>, pre: Seq<NodeModel>) -> bool {
    post.len() >= pre.len() && forall|j: int| 0 <= j < pre.len() ==> #[trigger] post[j] == pre[j]
}

// ---------------------------------------------------------------------------
// Well-formed tapes.
// ---------------------------------------------------------------------------

/// Every handle a value model may carry must point below `bound`.
pub open spec fn value_below(v: ValueModel, bound: int) -> bool {
    match v.id {
        None => true,
        Some(i) => 0 <= i < bound,
    }
}

/// Every handle an optional target may carry must point below `bound`.
pub open spec fn target_below(t: Option<int>, bound: int) -> bool {
    match t {
        None => true,
        Some(i) => 0 <= i < bound,
    }
}

/// Every handle mentioned by `op` (dependency or captured operand) points
/// strictly below `bound`.
pub open spec fn op_below(op: OpModel, bound: int) -> bool {
    match op {
        OpModel::Add(i0, i1) => target_below(i0, bound) && target_below(i1, bound),
        OpModel::AddAll(ids) => forall|k: int|
            0 <= k < ids.len() ==> target_below(#[trigger] ids[k], bound),
        OpModel::Sub(i0, i1) => target_below(i0, bound) && target_below(i1, bound),
        OpModel::Neg(i0) => target_below(i0, bound),
        OpModel::Mul(a, b) => value_below(a, bound) && value_below(b, bound),
        OpModel::Addc(i0) => target_below(i0, bound),
        OpModel::Mulc(i0, _) => target_below(i0, bound),
        OpModel::Powc(v, _) => value_below(v, bound),
        OpModel::SelectArgmax(v0, v1, i0, i1) => value_below(v0, bound) && value_below(v1, bound)
            && target_below(i0, bound) && target_below(i1, bound),
    }
}

/// Allocation order is dependency order: every handle a node's rule mentions
/// was allocated strictly earlier. This is the invariant the backward sweep
/// exploits, and every tape built through the library's operations has it.
pub open spec fn wf_tape(nodes: Seq<NodeModel>) -> bool {
    forall|i: int| 0 <= i < nodes.len() ==> match #[trigger] nodes[i].rule {
        None => true,
        Some(op) => op_below(op, i),
    }
}

/// Recording a rule whose handles all point into the existing tape keeps
/// the tape well-formed: the fresh node's dependencies were all allocated
/// strictly earlier. Appending an entry-point variable keeps it too.
pub proof fn lemma_record_preserves_wf(nodes: Seq<NodeModel>, op: OpModel, data: int)
    requires
        wf_tape(nodes),
        op_below(op, nodes.len() as int),
    ensures
        wf_tape(record(nodes, op, data).0),
        wf_tape(tape_variable(nodes, data).0),
{
    let (n2, _) = record(nodes, op, data);
    assert forall|i: int| 0 <= i < n2.len() implies match #[trigger] n2[i].rule {
        None => true,
        Some(o) => op_below(o, i),
    } by {
        if i < nodes.len() {
            assert(n2[i] == nodes[i]);
        }
    }
    let (nv, _) = tape_variable(nodes, data);
    assert forall|i: int| 0 <= i < nv.len() implies match #[trigger] nv[i].rule {
        None => true,
        Some(o) => op_below(o, i),
    } by {
        if i < nodes.len() {
            assert(nv[i] == nodes[i]);
        }
    }
}


/// Marking places a mark on every in-range target.
pub proof fn lemma_mark_targets_sets(pend: Seq<bool>, targets: Seq<Option<int>>, i: int)
    requires
        i <= pend.len(),
    ensures
        forall|k: int|
            0 <= k < targets.len() ==> match #[trigger] targets[k] {
                Some(j) => 0 <= j < i ==> mark_targets(pend, targets, i)[j],
                None => true,
            },
    decreases targets.len(),
{
    if targets.len() == 0 {
    } else {
        let p2 = match targets[0] {
            Some(j) => if 0 <= j < i {
                pend.update(j, true)
            } else {
                pend
            },
            None => pend,
        };
        assert(mark_targets(pend, targets, i) == mark_targets(p2, targets.drop_first(), i));
        assert(p2.len() == pend.len());
        lemma_mark_targets_sets(p2, targets.drop_first(), i);
        lemma_mark_targets_keeps(p2, targets.drop_first(), i);
        assert forall|k: int|
            0 <= k < targets.len() implies match #[trigger] targets[k] {
            Some(j) => 0 <= j < i ==> mark_targets(pend, targets, i)[j],
            None => true,
        } by {
            if k == 0 {
                match targets[0] {
                    Some(j) => {
                        if 0 <= j < i {
                            assert(p2[j]);
                        }
                    },
                    None => {},
                }
            } else {
                assert(targets.drop_first()[k - 1] == targets[k]);
            }
        }
    }
}

/// A single contribution adds at most its own target to the store.
pub proof fn lemma_contribute1_new_entries(store: Map<int, int>, t: Option<int>, v: int)
    ensures
        match contribute1(store, t, v) {
            Some(s2) => forall|j: int|
                #[trigger] s2.contains_key(j) ==> store.contains_key(j) || t == Some(j),
            None => true,
        },
{
}

/// The fold of contributions adds at most the listed targets to the store.
pub proof fn lemma_contribute1_all_new_entries(store: Map<int, int>, ids: Seq<Option<int>>, g: int)
    ensures
        match contribute1_all(store, ids, g) {
            Some(s2) => forall|j: int|
                #[trigger] s2.contains_key(j) ==> store.contains_key(j) || (exists|k: int|
                    0 <= k < ids.len() && ids[k] == Some(j)),
            None => true,
        },
    decreases ids.len(),
{
    if ids.len() == 0 {
    } else {
        lemma_contribute1_new_entries(store, ids[0], g);
        match contribute1(store, ids[0], g) {
            None => {},
            Some(s1) => {
                lemma_contribute1_all_new_entries(s1, ids.drop_first(), g);
                match contribute1_all(s1, ids.drop_first(), g) {
                    None => {},
                    Some(s2) => {
                        assert forall|j: int|
                            #[trigger] s2.contains_key(j) implies store.contains_key(j) || (
                        exists|k: int| 0 <= k < ids.len() && ids[k] == Some(j)) by {
                            if !store.contains_key(j) {
                                if s1.contains_key(j) {
                                    assert(ids[0] == Some(j));
                                } else {
                                    let k = choose|k: int|
                                        0 <= k < ids.drop_first().len() && ids.drop_first()[k]
                                            == Some(j);
                                    assert(ids[k + 1] == Some(j));
                                }
                            }
                        }
                    },
                }
            },
        }
    }
}

/// Applying a rule adds at most the rule's own targets to the store: every
/// new gradient entry belongs to one of the finalized node's dependencies.
pub proof fn lemma_apply1_new_entries(op: OpModel, g: int, store: Map<int, int>)
    ensures
        match apply1(op, g, store) {
            Some(s2) => forall|j: int|
                #[trigger] s2.contains_key(j) ==> store.contains_key(j) || (exists|k: int|
                    0 <= k < op_targets(op).len() && op_targets(op)[k] == Some(j)),
            None => true,
        },
{
    let ts = op_targets(op);
    match op {
        OpModel::Add(i0, i1) => {
            lemma_contribute1_new_entries(store, i0, g);
            match contribute1(store, i0, g) {
                None => {},
                Some(sa) => {
                    lemma_contribute1_new_entries(sa, i1, g);
                    lemma_two_step_entries(store, sa, apply1(op, g, store), i0, i1, ts);
                },
            }
        },
        OpModel::AddAll(ids) => {
            lemma_contribute1_all_new_entries(store, ids, g);
        },
        OpModel::Sub(i0, i1) => {
            lemma_contribute1_new_entries(store, i0, g);
            match contribute1(store, i0, g) {
                None => {},
                Some(sa) => {
                    if i1 is Some && in_i32(-g) {
                        lemma_contribute1_new_entries(sa, i1, -g);
                    }
                    lemma_two_step_entries(store, sa, apply1(op, g, store), i0, i1, ts);
                },
            }
        },
        OpModel::Neg(i0) => {
            if i0 is Some && in_i32(-g) {
                lemma_contribute1_new_entries(store, i0, -g);
            }
        },
        OpModel::Mul(a, b) => {
            if a.id is None || in_i32(g * b.data) {
                lemma_contribute1_new_entries(store, a.id, g * b.data);
                match contribute1_scaled(store, a.id, g, b.data) {
                    None => {},
                    Some(sa) => {
                        if b.id is Some && in_i32(g * a.data) {
                            lemma_contribute1_new_entries(sa, b.id, g * a.data);
                        }
                        lemma_two_step_entries(store, sa, apply1(op, g, store), a.id, b.id, ts);
                    },
                }
            }
        },
        OpModel::Addc(i0) => {
            lemma_contribute1_new_entries(store, i0, g);
        },
        OpModel::Mulc(i0, c) => {
            if i0 is Some && in_i32(g * c) {
                lemma_contribute1_new_entries(store, i0, g * c);
            }
        },
        OpModel::Powc(v, c) => {
            match v.id {
                None => {},
                Some(_) => {
                    if c == 0 {
                        lemma_contribute1_new_entries(store, v.id, 0);
                    } else {
                        if pow_fits(v.data, (c - 1) as nat) {
                            let e = pow_int(v.data, (c - 1) as nat);
                            if in_i32(e * c) && in_i32(g * (e * c)) {
                                lemma_contribute1_new_entries(store, v.id, g * (e * c));
                            }
                        }
                    }
                },
            }
        },
        OpModel::SelectArgmax(v0, v1, i0, i1) => {
            let cond = v0.data >= v1.data;
            let g0 = if cond {
                g
            } else {
                0
            };
            let g1 = if cond {
                0
            } else {
                g
            };
            lemma_contribute1_new_entries(store, i0, g0);
            match contribute1(store, i0, g0) {
                None => {},
                Some(sa) => {
                    lemma_contribute1_new_entries(sa, i1, g1);
                    lemma_two_step_entries(store, sa, apply1(op, g, store), i0, i1, ts);
                },
            }
        },
    }
}

/// Chain the new-entry bound over a two-target rule, naming the position of
/// each target in the rule's target list.
proof fn lemma_two_step_entries(
    store: Map<int, int>,
    sa: Map<int, int>,
    out: Option<Map<int, int>>,
    i0: Option<int>,
    i1: Option<int>,
    ts: Seq<Option<int>>,
)
    requires
        ts.len() == 2,
        ts[0] == i0,
        ts[1] == i1,
        forall|j: int| #[trigger] sa.contains_key(j) ==> store.contains_key(j) || i0 == Some(j),
        match out {
            Some(s2) => forall|j: int|
                #[trigger] s2.contains_key(j) ==> sa.contains_key(j) || i1 == Some(j),
            None => true,
        },
    ensures
        match out {
            Some(s2) => forall|j: int|
                #[trigger] s2.contains_key(j) ==> store.contains_key(j) || (exists|k: int|
                    0 <= k < ts.len() && ts[k] == Some(j)),
            None => true,
        },
{
    match out {
        None => {},
        Some(s2) => {
            assert forall|j: int|
                #[trigger] s2.contains_key(j) implies store.contains_key(j) || (exists|k: int|
                0 <= k < ts.len() && ts[k] == Some(j)) by {
                if !store.contains_key(j) {
                    if sa.contains_key(j) {
                        assert(ts[0] == Some(j));
                    } else {
                        assert(ts[1] == Some(j));
                    }
                }
            }
        },
    }
}



/// A rule whose handles all lie below `bound` has every target below
/// `bound` too.
pub proof fn lemma_op_below_targets(op: OpModel, bound: int)
    requires
        op_below(op, bound),
    ensures
        forall|k: int|
            0 <= k < op_targets(op).len() ==> match #[trigger] op_targets(op)[k] {
                Some(j) => 0 <= j < bound,
                None => true,
            },
{
    let ts = op_targets(op);
    match op {
        OpModel::Add(i0, i1) => {
            assert(ts[0] == i0 && ts[1] == i1);
        },
        OpModel::AddAll(ids) => {
            assert forall|k: int|
                0 <= k < ts.len() implies match #[trigger] ts[k] {
                Some(j) => 0 <= j < bound,
                None => true,
            } by {
                assert(target_below(ids[k], bound));
            }
        },
        OpModel::Sub(i0, i1) => {
            assert(ts[0] == i0 && ts[1] == i1);
        },
        OpModel::Neg(i0) => {
            assert(ts[0] == i0);
        },
        OpModel::Mul(a, b) => {
            assert(ts[0] == a.id && ts[1] == b.id);
        },
        OpModel::Addc(i0) => {
            assert(ts[0] == i0);
        },
        OpModel::Mulc(i0, _) => {
            assert(ts[0] == i0);
        },
        OpModel::Powc(v, _) => {
            assert(ts[0] == v.id);
        },
        OpModel::SelectArgmax(_, _, i0, i1) => {
            assert(ts[0] == i0 && ts[1] == i1);
        },
    }
}


} // verus!
