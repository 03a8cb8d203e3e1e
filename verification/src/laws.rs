//! Proved properties of backward propagation.
//!
//! These lemmas state, over the model of [`crate::model`], the laws the
//! engine guarantees: a pending node always has a complete gradient by the
//! time it is finalized, the backward pass is linear in its seed, and
//! fan-out accumulates one contribution per consuming path.

use crate::model::apply1;
use crate::model::applyn;
use crate::model::backwardn;
use crate::model::contributen;
use crate::model::contributen_all;
use crate::model::contributen_mul;
use crate::model::extends;
use crate::model::record;
use crate::model::run_backwardn;
use crate::model::tape_add;
use crate::model::tape_mul;
use crate::model::tape_mulc;
use crate::model::tape_neg;
use crate::model::tape_powc;
use crate::model::tape_select;
use crate::model::OutcomeN;
use crate::model::StateN;
use crate::model::ValueModel;
use crate::model::backward1;
use crate::model::contribute1;
use crate::model::contribute1_all;
use crate::model::contribute1_scaled;
use crate::model::in_i32;
use crate::model::initial_pend;
use crate::model::mark_targets;
use crate::model::node_of;
use crate::model::op_targets;
use crate::model::pow_fits;
use crate::model::pow_int;
use crate::model::run_backward1;
use crate::model::variable_node;
use crate::model::NodeModel;
use crate::model::OpModel;
use crate::model::Outcome1;
use vstd::prelude::*;

verus! {

// ---------------------------------------------------------------------------
// Constants never enter the tape.
// ---------------------------------------------------------------------------

/// A rule all of whose operand handles are absent describes a formula built
/// entirely from constants: recording it appends nothing to the tape and
/// the resulting value carries no handle. So constant subexpressions never
/// enter the tape, whatever operations build them.
pub proof fn lemma_constants_never_recorded(nodes: Seq<NodeModel>, op: OpModel, data: int)
    requires
        crate::model::all_none(op_targets(op)),
    ensures
        crate::model::record(nodes, op, data) == (nodes, crate::model::ValueModel::constant(data)),
{
}

// ---------------------------------------------------------------------------
// Completeness: a finalized node always has an accumulated gradient.
// ---------------------------------------------------------------------------

/// Every pending index already has an entry in the accumulation store.
pub open spec fn pend_covered(pend: Seq<bool>, store: Map<int, int>) -> bool {
    forall|j: int| 0 <= j < pend.len() && pend[j] ==> #[trigger] store.contains_key(j)
}

/// A single contribution never removes store entries, and gives its target
/// an entry.
proof fn lemma_contribute1_covers(store: Map<int, int>, t: Option<int>, v: int)
    ensures
        match contribute1(store, t, v) {
            Some(s2) => (forall|j: int|
                store.contains_key(j) ==> #[trigger] s2.contains_key(j)) && (match t {
                Some(i) => s2.contains_key(i),
                None => true,
            }),
            None => true,
        },
{
}

/// Applying a rule never removes store entries, and gives every one of the
/// rule's targets an entry: each rule contributes to all its dependencies.
proof fn lemma_apply1_covers(op: OpModel, g: int, store: Map<int, int>)
    ensures
        match apply1(op, g, store) {
            Some(s2) => (forall|j: int|
                store.contains_key(j) ==> #[trigger] s2.contains_key(j)) && (forall|k: int|
                0 <= k < op_targets(op).len() ==> match #[trigger] op_targets(op)[k] {
                    Some(j) => s2.contains_key(j),
                    None => true,
                }),
            None => true,
        },
{
    match op {
        OpModel::AddAll(ids) => {
            lemma_contribute1_all_covers(store, ids, g);
        },
        _ => {
        },
    }
}

/// The fold of contributions over a target list covers every target.
proof fn lemma_contribute1_all_covers(store: Map<int, int>, ids: Seq<Option<int>>, g: int)
    ensures
        match contribute1_all(store, ids, g) {
            Some(s2) => (forall|j: int|
                store.contains_key(j) ==> #[trigger] s2.contains_key(j)) && (forall|k: int|
                0 <= k < ids.len() ==> match #[trigger] ids[k] {
                    Some(j) => s2.contains_key(j),
                    None => true,
                }),
            None => true,
        },
    decreases ids.len(),
{
    if ids.len() == 0 {
    } else {
        lemma_contribute1_covers(store, ids[0], g);
        match contribute1(store, ids[0], g) {
            None => {},
            Some(s1) => {
                lemma_contribute1_all_covers(s1, ids.drop_first(), g);
                match contribute1_all(s1, ids.drop_first(), g) {
                    None => {},
                    Some(s2) => {
                        assert forall|k: int| 0 <= k < ids.len() implies match #[trigger] ids[k] {
                            Some(j) => s2.contains_key(j),
                            None => true,
                        } by {
                            if k > 0 {
                                assert(ids.drop_first()[k - 1] == ids[k]);
                            }
                        }
                    },
                }
            },
        }
    }
}

/// A mark is only ever placed on one of the rule's targets (or was already
/// there).
proof fn lemma_mark_targets_from(pend: Seq<bool>, targets: Seq<Option<int>>, i: int)
    requires
        i <= pend.len(),
    ensures
        forall|j: int|
            0 <= j < pend.len() && #[trigger] mark_targets(pend, targets, i)[j] ==> pend[j] || (
            exists|k: int| 0 <= k < targets.len() && targets[k] == Some(j)),
    decreases targets.len(),
{
    if targets.len() == 0 {
    } else {
        let p2 = match targets[0] {
            Some(j) => if 0 <= j < i {
                pend.update(j, true)
            } else {
                pend
            },
            None => pend,
        };
        assert(mark_targets(pend, targets, i) == mark_targets(p2, targets.drop_first(), i));
        assert(p2.len() == pend.len());
        lemma_mark_targets_from(p2, targets.drop_first(), i);
        assert forall|j: int|
            0 <= j < pend.len() && #[trigger] mark_targets(pend, targets, i)[j] implies pend[j]
            || (exists|k: int| 0 <= k < targets.len() && targets[k] == Some(j)) by {
            if p2[j] {
                if !pend[j] {
                    match targets[0] {
                        Some(jt) => {
                            assert(0 <= jt < i);
                            assert(j == jt);
                            assert(targets[0] == Some(j));
                        },
                        None => {},
                    }
                }
            } else {
                assert(mark_targets(p2, targets.drop_first(), i)[j]);
                if !pend[j] {
                    let k = choose|k: int|
                        0 <= k < targets.drop_first().len() && targets.drop_first()[k] == Some(j);
                    assert(targets[k + 1] == Some(j));
                }
            }
        }
    }
}

/// The backward sweep never reports a missing gradient when every pending
/// index is covered by the store — as it is from the seeding on.
proof fn lemma_backward1_covered_complete(
    nodes: Seq<NodeModel>,
    i: int,
    pend: Seq<bool>,
    store: Map<int, int>,
)
    requires
        pend_covered(pend, store),
        i < pend.len(),
    ensures
        !(backward1(nodes, i, pend, store) matches Outcome1::NoGradient),
    decreases i + 1,
{
    if i < 0 {
    } else if pend[i] {
        match nodes[i].rule {
            None => {
                lemma_backward1_covered_complete(nodes, i - 1, pend, store);
            },
            Some(op) => {
                assert(store.contains_key(i));
                lemma_apply1_covers(op, store[i], store);
                match apply1(op, store[i], store) {
                    None => {},
                    Some(s2) => {
                        let p2 = mark_targets(pend, op_targets(op), i);
                        crate::model::lemma_mark_targets_keeps(pend, op_targets(op), i);
                        lemma_mark_targets_from(pend, op_targets(op), i);
                        assert forall|j: int|
                            0 <= j < p2.len() && p2[j] implies #[trigger] s2.contains_key(j) by {
                            if pend[j] {
                                assert(store.contains_key(j));
                            } else {
                                let k = choose|k: int|
                                    0 <= k < op_targets(op).len() && op_targets(op)[k] == Some(j);
                                assert(s2.contains_key(j));
                            }
                        }
                        lemma_backward1_covered_complete(nodes, i - 1, p2, s2);
                    },
                }
            },
        }
    } else {
        lemma_backward1_covered_complete(nodes, i - 1, pend, store);
    }
}

/// By the time a node is finalized, its gradient is complete: every one of
/// its consumers, all of which bear larger indices, has already contributed.
/// A backward pass therefore never reports a missing gradient, whatever
/// tape it is given and wherever it starts.
pub proof fn lemma_no_missing_gradient(nodes: Seq<NodeModel>, start: int, seed: int)
    requires
        0 <= start,
    ensures
        !(run_backward1(nodes, start, seed) matches Outcome1::NoGradient),
{
    let pend = initial_pend(start);
    let store = map![start => seed];
    assert(pend_covered(pend, store));
    lemma_backward1_covered_complete(nodes, start, pend, store);
}

// ---------------------------------------------------------------------------
// Linearity: the backward pass is linear in its seed.
// ---------------------------------------------------------------------------

/// `mk` holds exactly the handles of `m1`, each with `k` times the gradient.
pub open spec fn scaled_by(m1: Map<int, int>, mk: Map<int, int>, k: int) -> bool {
    (forall|j: int| #[trigger] m1.contains_key(j) <==> #[trigger] mk.contains_key(j))
        && (forall|j: int| #[trigger] m1.contains_key(j) ==> mk[j] == k * m1[j])
}

/// One contribution scales: contributing `k*v` to the `k`-scaled store
/// keeps the stores scaled, whenever neither side overflows.
proof fn lemma_contribute1_scales(s1: Map<int, int>, sk: Map<int, int>, t: Option<int>, v: int, vk: int, k: int)
    requires
        scaled_by(s1, sk, k),
        vk == k * v,
    ensures
        match (contribute1(s1, t, v), contribute1(sk, t, vk)) {
            (Some(a), Some(b)) => scaled_by(a, b, k),
            _ => true,
        },
{
    match t {
        None => {},
        Some(i) => {
            if s1.contains_key(i) {
                assert(k * s1[i] + k * v == k * (s1[i] + v)) by (nonlinear_arith);
            }
        },
    }
}

/// The fold of contributions scales.
proof fn lemma_contribute1_all_scales(
    s1: Map<int, int>,
    sk: Map<int, int>,
    ids: Seq<Option<int>>,
    g: int,
    gk: int,
    k: int,
)
    requires
        scaled_by(s1, sk, k),
        gk == k * g,
    ensures
        match (contribute1_all(s1, ids, g), contribute1_all(sk, ids, gk)) {
            (Some(a), Some(b)) => scaled_by(a, b, k),
            _ => true,
        },
    decreases ids.len(),
{
    if ids.len() == 0 {
    } else {
        lemma_contribute1_scales(s1, sk, ids[0], g, gk, k);
        match (contribute1(s1, ids[0], g), contribute1(sk, ids[0], gk)) {
            (Some(a), Some(b)) => {
                lemma_contribute1_all_scales(a, b, ids.drop_first(), g, gk, k);
            },
            _ => {},
        }
    }
}

/// Applying one rule scales: every rule's contribution is linear in the
/// incoming gradient.
proof fn lemma_apply1_scales(op: OpModel, g: int, gk: int, s1: Map<int, int>, sk: Map<int, int>, k: int)
    requires
        scaled_by(s1, sk, k),
        gk == k * g,
    ensures
        match (apply1(op, g, s1), apply1(op, gk, sk)) {
            (Some(a), Some(b)) => scaled_by(a, b, k),
            _ => true,
        },
{
    match op {
        OpModel::Add(i0, i1) => {
            lemma_contribute1_scales(s1, sk, i0, g, gk, k);
            match (contribute1(s1, i0, g), contribute1(sk, i0, gk)) {
                (Some(a), Some(b)) => {
                    lemma_contribute1_scales(a, b, i1, g, gk, k);
                },
                _ => {},
            }
        },
        OpModel::AddAll(ids) => {
            lemma_contribute1_all_scales(s1, sk, ids, g, gk, k);
        },
        OpModel::Sub(i0, i1) => {
            lemma_contribute1_scales(s1, sk, i0, g, gk, k);
            match (contribute1(s1, i0, g), contribute1(sk, i0, gk)) {
                (Some(a), Some(b)) => {
                    assert(-gk == k * (-g)) by (nonlinear_arith)
                        requires
                            gk == k * g,
                    ;
                    lemma_contribute1_scales(a, b, i1, -g, -gk, k);
                },
                _ => {},
            }
        },
        OpModel::Neg(i0) => {
            assert(-gk == k * (-g)) by (nonlinear_arith)
                requires
                    gk == k * g,
            ;
            lemma_contribute1_scales(s1, sk, i0, -g, -gk, k);
        },
        OpModel::Mul(a, b) => {
            assert(gk * b.data == k * (g * b.data)) by (nonlinear_arith)
                requires
                    gk == k * g,
            ;
            lemma_contribute1_scales(s1, sk, a.id, g * b.data, gk * b.data, k);
            match (contribute1_scaled(s1, a.id, g, b.data), contribute1_scaled(sk, a.id, gk, b.data)) {
                (Some(x), Some(y)) => {
                    assert(gk * a.data == k * (g * a.data)) by (nonlinear_arith)
                        requires
                            gk == k * g,
                    ;
                    lemma_contribute1_scales(x, y, b.id, g * a.data, gk * a.data, k);
                },
                _ => {},
            }
        },
        OpModel::Addc(i0) => {
            lemma_contribute1_scales(s1, sk, i0, g, gk, k);
        },
        OpModel::Mulc(i0, c) => {
            assert(gk * c == k * (g * c)) by (nonlinear_arith)
                requires
                    gk == k * g,
            ;
            lemma_contribute1_scales(s1, sk, i0, g * c, gk * c, k);
        },
        OpModel::Powc(v, c) => {
            match v.id {
                None => {},
                Some(i) => {
                    if c == 0 {
                        lemma_contribute1_scales(s1, sk, v.id, 0, 0, k);
                        assert(0 == k * 0) by (nonlinear_arith);
                    } else {
                        if pow_fits(v.data, (c - 1) as nat) {
                            let e = pow_int(v.data, (c - 1) as nat);
                            if in_i32(e * c) {
                                assert(gk * (e * c) == k * (g * (e * c))) by (nonlinear_arith)
                                    requires
                                        gk == k * g,
                                ;
                                lemma_contribute1_scales(s1, sk, v.id, g * (e * c), gk * (e * c), k);
                            }
                        }
                    }
                },
            }
        },
        OpModel::SelectArgmax(v0, v1, i0, i1) => {
            let cond = v0.data >= v1.data;
            let g0 = if cond { g } else { 0 };
            let g0k = if cond { gk } else { 0 };
            assert(g0k == k * g0) by (nonlinear_arith)
                requires
                    gk == k * g,
                    g0 == if cond { g } else { 0 },
                    g0k == if cond { gk } else { 0 },
            ;
            lemma_contribute1_scales(s1, sk, i0, g0, g0k, k);
            match (contribute1(s1, i0, g0), contribute1(sk, i0, g0k)) {
                (Some(a), Some(b)) => {
                    let g1 = if cond { 0 } else { g };
                    let g1k = if cond { 0 } else { gk };
                    assert(g1k == k * g1) by (nonlinear_arith)
                        requires
                            gk == k * g,
                            g1 == if cond { 0 } else { g },
                            g1k == if cond { 0 } else { gk },
                    ;
                    lemma_contribute1_scales(a, b, i1, g1, g1k, k);
                },
                _ => {},
            }
        },
    }
}

/// The whole sweep scales, step by step.
proof fn lemma_backward1_scales(
    nodes: Seq<NodeModel>,
    i: int,
    pend: Seq<bool>,
    s1: Map<int, int>,
    sk: Map<int, int>,
    k: int,
)
    requires
        scaled_by(s1, sk, k),
    ensures
        match (backward1(nodes, i, pend, s1), backward1(nodes, i, pend, sk)) {
            (Outcome1::Done(m1), Outcome1::Done(mk)) => scaled_by(m1, mk, k),
            _ => true,
        },
    decreases i + 1,
{
    if i < 0 {
    } else if pend[i] {
        match nodes[i].rule {
            None => {
                lemma_backward1_scales(nodes, i - 1, pend, s1, sk, k);
            },
            Some(op) => {
                if s1.contains_key(i) && sk.contains_key(i) {
                    lemma_apply1_scales(op, s1[i], sk[i], s1, sk, k);
                    match (apply1(op, s1[i], s1), apply1(op, sk[i], sk)) {
                        (Some(a), Some(b)) => {
                            lemma_backward1_scales(
                                nodes,
                                i - 1,
                                mark_targets(pend, op_targets(op), i),
                                a,
                                b,
                                k,
                            );
                        },
                        _ => {},
                    }
                }
            },
        }
    } else {
        lemma_backward1_scales(nodes, i - 1, pend, s1, sk, k);
    }
}

/// Linearity in the seed: whenever a backward pass from `start` finishes
/// with seed 1 and also finishes with seed `k`, the second pass assigns
/// every handle exactly `k` times the gradient the first one assigned —
/// from the same, unmodified tape, runnable repeatedly.
pub proof fn lemma_backward_linear_in_seed(nodes: Seq<NodeModel>, start: int, k: int)
    ensures
        match (run_backward1(nodes, start, 1), run_backward1(nodes, start, k)) {
            (Outcome1::Done(m1), Outcome1::Done(mk)) => scaled_by(m1, mk, k),
            _ => true,
        },
{
    let s1 = map![start => 1int];
    let sk = map![start => k];
    assert(k == k * 1) by (nonlinear_arith);
    assert(scaled_by(s1, sk, k));
    lemma_backward1_scales(nodes, start, initial_pend(start), s1, sk, k);
}

// ---------------------------------------------------------------------------
// Fan-out accumulation.
// ---------------------------------------------------------------------------

/// Contributing `s` to a present handle `n` more times accumulates `n * s`.
proof fn lemma_contribute1_repeat(store: Map<int, int>, n: nat, s: int, t: int)
    requires
        store.contains_key(t),
        forall|m: nat| m <= n ==> in_i32(store[t] + #[trigger] (m * s)),
    ensures
        contribute1_all(store, Seq::new(n, |q: int| Some(t)), s) == Some(
            store.insert(t, store[t] + n * s),
        ),
    decreases n,
{
    let ids = Seq::new(n, |q: int| Some(t));
    if n == 0 {
        assert(0 * s == 0) by (nonlinear_arith);
        assert(store.insert(t, store[t] + 0 * s) =~= store);
    } else {
        assert(in_i32(store[t] + 1 * s));
        assert(1 * s == s) by (nonlinear_arith);
        let s2 = store.insert(t, store[t] + s);
        assert(contribute1(store, ids[0], s) == Some(s2));
        assert(ids.drop_first() =~= Seq::new((n - 1) as nat, |q: int| Some(t)));
        assert forall|m: nat| m <= (n - 1) as nat implies in_i32(s2[t] + #[trigger] (m * s)) by {
            assert((m + 1) * s == m * s + s) by (nonlinear_arith);
            assert(in_i32(store[t] + (m + 1) as nat * s));
        }
        lemma_contribute1_repeat(s2, (n - 1) as nat, s, t);
        let nm: int = n - 1;
        assert(nm * s + s == (nm + 1) * s) by (nonlinear_arith);
        assert((n - 1) as nat * s == nm * s);
        assert((n - 1) as nat * s + s == n * s);
        assert(s2.insert(t, s2[t] + (n - 1) as nat * s) =~= store.insert(t, store[t] + n * s));
    }
}

/// Fan-out accumulation: when a variable is consumed by `c` independent
/// paths — here, summed with itself `c` times — a backward pass with seed
/// `s` accumulates exactly `c * s` at that variable.
pub proof fn lemma_fanout_accumulation(c: nat, s: int)
    ensures
        ({
            let nodes = seq![
                variable_node(),
                node_of(OpModel::AddAll(Seq::new(c, |q: int| Some(0int)))),
            ];
            1 <= c && in_i32(s) && in_i32(c * s) && (forall|m: nat|
                m <= c ==> in_i32(#[trigger] (m * s))) ==> (run_backward1(nodes, 1, s) matches
                Outcome1::Done(m) && m.contains_key(0) && m[0] == c * s && m.contains_key(1)
                && m[1] == s)
        }),
{
    let ids = Seq::new(c, |q: int| Some(0int));
    let op = OpModel::AddAll(ids);
    let nodes = seq![variable_node(), node_of(op)];
    if 1 <= c && in_i32(s) && in_i32(c * s) && (forall|m: nat| m <= c ==> in_i32(#[trigger] (m * s))) {
        let pend = initial_pend(1);
        let store = map![1int => s];
        assert(pend.len() == 2 && pend[1] && !pend[0]);
        assert(nodes[1].rule == Some(op));
        assert(store.contains_key(1) && store[1] == s);

        // The rule contributes `s` to handle 0, `c` times over.
        let s2 = store.insert(0, s);
        assert(contribute1(store, ids[0], s) == Some(s2));
        assert(ids.drop_first() =~= Seq::new((c - 1) as nat, |q: int| Some(0int)));
        assert forall|m: nat| m <= (c - 1) as nat implies in_i32(s2[0] + #[trigger] (m * s)) by {
            assert((m + 1) * s == m * s + s) by (nonlinear_arith);
            assert(in_i32((m + 1) as nat * s));
        }
        lemma_contribute1_repeat(s2, (c - 1) as nat, s, 0);
        let s3 = s2.insert(0, s2[0] + (c - 1) as nat * s);
        assert(apply1(op, s, store) == Some(s3));
        let cm: int = c - 1;
        assert(cm * s + s == (cm + 1) * s) by (nonlinear_arith);
        assert((c - 1) as nat * s == cm * s);
        assert((c - 1) as nat * s + s == c * s);
        assert(s3[0] == c * s);
        assert(s3.contains_key(1) && s3[1] == s);

        // Handle 0 is marked pending, and is a plain variable: the sweep
        // then finishes with the store as computed.
        let p2 = mark_targets(pend, op_targets(op), 1);
        crate::model::lemma_mark_targets_keeps(pend.update(0, true), op_targets(op).drop_first(), 1);
        assert(op_targets(op)[0] == Some(0int));
        assert(op_targets(op).drop_first() =~= Seq::new((c - 1) as nat, |q: int| Some(0int)));
        assert(mark_targets(pend, op_targets(op), 1) == mark_targets(
            pend.update(0, true),
            op_targets(op).drop_first(),
            1,
        ));
        assert(p2[0]);
        assert(backward1(nodes, 1, pend, store) == backward1(nodes, 0, p2, s3));
        assert(nodes[0].rule is None);
        assert(backward1(nodes, 0, p2, s3) == backward1(nodes, -1, p2, s3));
        assert(backward1(nodes, -1, p2, s3) == Outcome1::Done(s3));
    }
}


// ---------------------------------------------------------------------------
// Projection: a higher-order pass carries the first-order gradients.
// ---------------------------------------------------------------------------

/// The tracked store holds exactly the handles of the plain store, and the
/// forward data of each tracked gradient is the plain gradient.
pub open spec fn data_matches(mn: Map<int, ValueModel>, m1: Map<int, int>) -> bool {
    (forall|j: int| #[trigger] mn.contains_key(j) <==> #[trigger] m1.contains_key(j)) && (forall|
        j: int,
    | mn.contains_key(j) ==> m1[j] == #[trigger] mn[j].data)
}

/// Recording a rule only ever appends to the tape.
proof fn lemma_record_extends(nodes: Seq<NodeModel>, op: OpModel, data: int)
    ensures
        extends(record(nodes, op, data).0, nodes),
{
    let n2 = record(nodes, op, data).0;
    assert forall|j: int| 0 <= j < nodes.len() implies #[trigger] n2[j] == nodes[j] by {}
}

/// One tracked contribution corresponds to one plain contribution: it
/// succeeds exactly when the plain one does, only appends to the tape, and
/// keeps the stores matching.
proof fn lemma_contributen_projects(st: StateN, s1: Map<int, int>, t: Option<int>, v: ValueModel)
    requires
        data_matches(st.store, s1),
    ensures
        match (contributen(st, t, v), contribute1(s1, t, v.data)) {
            (Some(st2), Some(s2)) => data_matches(st2.store, s2) && extends(st2.nodes, st.nodes),
            (None, None) => true,
            _ => false,
        },
{
    match t {
        None => {
            assert(extends(st.nodes, st.nodes));
        },
        Some(i) => {
            if st.store.contains_key(i) {
                match tape_add(st.nodes, st.store[i], v) {
                    None => {},
                    Some((n2, sum)) => {
                        lemma_record_extends(st.nodes, OpModel::Add(st.store[i].id, v.id), st.store[i].data + v.data);
                    },
                }
            } else {
                assert(extends(st.nodes, st.nodes));
            }
        },
    }
}

/// The fold of tracked contributions corresponds to the fold of plain
/// contributions.
proof fn lemma_contributen_all_projects(
    st: StateN,
    s1: Map<int, int>,
    ids: Seq<Option<int>>,
    g: ValueModel,
)
    requires
        data_matches(st.store, s1),
    ensures
        match (contributen_all(st, ids, g), contribute1_all(s1, ids, g.data)) {
            (Some(st2), Some(s2)) => data_matches(st2.store, s2) && extends(st2.nodes, st.nodes),
            (None, None) => true,
            _ => false,
        },
    decreases ids.len(),
{
    if ids.len() == 0 {
        assert(extends(st.nodes, st.nodes));
    } else {
        lemma_contributen_projects(st, s1, ids[0], g);
        match (contributen(st, ids[0], g), contribute1(s1, ids[0], g.data)) {
            (Some(sta), Some(s1a)) => {
                lemma_contributen_all_projects(sta, s1a, ids.drop_first(), g);
                match (contributen_all(sta, ids.drop_first(), g), contribute1_all(s1a, ids.drop_first(), g.data)) {
                    (Some(stb), Some(s1b)) => {
                        assert(extends(stb.nodes, st.nodes));
                    },
                    _ => {},
                }
            },
            _ => {},
        }
    }
}

/// Running one rule on a tracked gradient corresponds to running it on the
/// gradient's data: same success, matching stores, a tape that only grew.
proof fn lemma_applyn_projects(op: OpModel, g: ValueModel, st: StateN, s1: Map<int, int>)
    requires
        data_matches(st.store, s1),
    ensures
        match (applyn(op, g, st), apply1(op, g.data, s1)) {
            (Some(st2), Some(s2)) => data_matches(st2.store, s2) && extends(st2.nodes, st.nodes),
            (None, None) => true,
            _ => false,
        },
{
    match op {
        OpModel::Add(i0, i1) => {
            lemma_contributen_projects(st, s1, i0, g);
            match (contributen(st, i0, g), contribute1(s1, i0, g.data)) {
                (Some(sta), Some(s1a)) => {
                    lemma_contributen_projects(sta, s1a, i1, g);
                    match (contributen(sta, i1, g), contribute1(s1a, i1, g.data)) {
                        (Some(stb), Some(s1b)) => {
                            assert(extends(stb.nodes, st.nodes));
                        },
                        _ => {},
                    }
                },
                _ => {},
            }
        },
        OpModel::AddAll(ids) => {
            lemma_contributen_all_projects(st, s1, ids, g);
        },
        OpModel::Sub(i0, i1) => {
            lemma_contributen_projects(st, s1, i0, g);
            match (contributen(st, i0, g), contribute1(s1, i0, g.data)) {
                (Some(sta), Some(s1a)) => {
                    match i1 {
                        None => {
                            assert(extends(sta.nodes, st.nodes));
                        },
                        Some(_) => {
                            match tape_neg(sta.nodes, g) {
                                None => {},
                                Some((n2, ng)) => {
                                    lemma_record_extends(sta.nodes, OpModel::Neg(g.id), -g.data);
                                    let stn = StateN { nodes: n2, store: sta.store };
                                    lemma_contributen_projects(stn, s1a, i1, ng);
                                    match (contributen(stn, i1, ng), contribute1(s1a, i1, -g.data)) {
                                        (Some(stb), Some(s1b)) => {
                                            assert(extends(stb.nodes, st.nodes));
                                        },
                                        _ => {},
                                    }
                                },
                            }
                        },
                    }
                },
                _ => {},
            }
        },
        OpModel::Neg(i0) => {
            match i0 {
                None => {
                    assert(extends(st.nodes, st.nodes));
                },
                Some(_) => {
                    match tape_neg(st.nodes, g) {
                        None => {},
                        Some((n2, ng)) => {
                            lemma_record_extends(st.nodes, OpModel::Neg(g.id), -g.data);
                            let stn = StateN { nodes: n2, store: st.store };
                            lemma_contributen_projects(stn, s1, i0, ng);
                            match (contributen(stn, i0, ng), contribute1(s1, i0, -g.data)) {
                                (Some(stb), Some(s1b)) => {
                                    assert(extends(stb.nodes, st.nodes));
                                },
                                _ => {},
                            }
                        },
                    }
                },
            }
        },
        OpModel::Mul(a, b) => {
            match a.id {
                None => {
                    lemma_mul_second_operand(a, b, g, st, s1);
                },
                Some(_) => {
                    match tape_mul(st.nodes, g, b) {
                        None => {},
                        Some((n2, p)) => {
                            lemma_record_extends(st.nodes, OpModel::Mul(g, b), g.data * b.data);
                            let stn = StateN { nodes: n2, store: st.store };
                            lemma_contributen_projects(stn, s1, a.id, p);
                            match (contributen(stn, a.id, p), contribute1(s1, a.id, g.data * b.data)) {
                                (Some(sta), Some(s1a)) => {
                                    lemma_mul_second_operand(a, b, g, sta, s1a);
                                    match (contributen_mul(sta, b.id, a, g), contribute1_scaled(s1a, b.id, g.data, a.data)) {
                                        (Some(stb), Some(s1b)) => {
                                            assert(extends(stb.nodes, st.nodes));
                                        },
                                        _ => {},
                                    }
                                },
                                _ => {},
                            }
                        },
                    }
                },
            }
        },
        OpModel::Addc(i0) => {
            lemma_contributen_projects(st, s1, i0, g);
        },
        OpModel::Mulc(i0, c) => {
            match i0 {
                None => {
                    assert(extends(st.nodes, st.nodes));
                },
                Some(_) => {
                    match tape_mulc(st.nodes, g, c) {
                        None => {},
                        Some((n2, p)) => {
                            lemma_record_extends(st.nodes, OpModel::Mulc(g.id, c), g.data * c);
                            let stn = StateN { nodes: n2, store: st.store };
                            lemma_contributen_projects(stn, s1, i0, p);
                            match (contributen(stn, i0, p), contribute1(s1, i0, g.data * c)) {
                                (Some(stb), Some(s1b)) => {
                                    assert(extends(stb.nodes, st.nodes));
                                },
                                _ => {},
                            }
                        },
                    }
                },
            }
        },
        OpModel::Powc(v, c) => {
            match v.id {
                None => {
                    assert(extends(st.nodes, st.nodes));
                },
                Some(_) => {
                    if c == 0 {
                        lemma_contributen_projects(st, s1, v.id, ValueModel::constant(0));
                    } else {
                        match tape_powc(st.nodes, v, (c - 1) as nat) {
                            None => {},
                            Some((n2, e)) => {
                                lemma_record_extends(st.nodes, OpModel::Powc(v, (c - 1) as nat), pow_int(v.data, (c - 1) as nat));
                                match tape_mulc(n2, e, c as int) {
                                    None => {},
                                    Some((n3, f)) => {
                                        lemma_record_extends(n2, OpModel::Mulc(e.id, c as int), e.data * c);
                                        let ec = pow_int(v.data, (c - 1) as nat) * c;
                                        assert(f.data == ec);
                                        assert(in_i32(f.data * g.data) == in_i32(g.data * ec) && f.data * g.data == g.data * ec) by (nonlinear_arith)
                                            requires
                                                f.data == ec,
                                        ;
                                        match tape_mul(n3, f, g) {
                                            None => {},
                                            Some((n4, p)) => {
                                                lemma_record_extends(n3, OpModel::Mul(f, g), f.data * g.data);
                                                let stn = StateN { nodes: n4, store: st.store };
                                                lemma_contributen_projects(stn, s1, v.id, p);
                                                match (contributen(stn, v.id, p), contribute1(s1, v.id, g.data * ec)) {
                                                    (Some(stb), Some(s1b)) => {
                                                        assert(extends(stb.nodes, st.nodes));
                                                    },
                                                    _ => {},
                                                }
                                            },
                                        }
                                    },
                                }
                            },
                        }
                    }
                },
            }
        },
        OpModel::SelectArgmax(v0, v1, i0, i1) => {
            let cond = v0.data >= v1.data;
            let st1 = match i0 {
                None => Some(st),
                Some(_) => {
                    let (n2, g0) = tape_select(st.nodes, v0, v1, Some(g), None);
                    contributen(StateN { nodes: n2, store: st.store }, i0, g0)
                },
            };
            match i0 {
                None => {},
                Some(_) => {
                    let (n2, g0) = tape_select(st.nodes, v0, v1, Some(g), None);
                    lemma_record_extends(
                        st.nodes,
                        OpModel::SelectArgmax(v0, v1, g.id, None),
                        if cond {
                            g.data
                        } else {
                            0
                        },
                    );
                    lemma_contributen_projects(
                        StateN { nodes: n2, store: st.store },
                        s1,
                        i0,
                        g0,
                    );
                },
            }
            let p1 = contribute1(
                s1,
                i0,
                if cond {
                    g.data
                } else {
                    0
                },
            );
            match (st1, p1) {
                (Some(sta), Some(s1a)) => {
                    assert(extends(sta.nodes, st.nodes));
                    match i1 {
                        None => {},
                        Some(_) => {
                            let (n3, g1) = tape_select(sta.nodes, v0, v1, None, Some(g));
                            lemma_record_extends(
                                sta.nodes,
                                OpModel::SelectArgmax(v0, v1, None, g.id),
                                if cond {
                                    0
                                } else {
                                    g.data
                                },
                            );
                            lemma_contributen_projects(
                                StateN { nodes: n3, store: sta.store },
                                s1a,
                                i1,
                                g1,
                            );
                            match (contributen(StateN { nodes: n3, store: sta.store }, i1, g1), contribute1(
                                s1a,
                                i1,
                                if cond {
                                    0
                                } else {
                                    g.data
                                },
                            )) {
                                (Some(stb), Some(s1b)) => {
                                    assert(extends(stb.nodes, st.nodes));
                                },
                                _ => {},
                            }
                        },
                    }
                },
                _ => {},
            }
        },
    }
}

/// The second operand's share of the product rule corresponds: the tracked
/// `a * g` carries the data `g * a`, the order the plain rule uses.
proof fn lemma_mul_second_operand(a: ValueModel, b: ValueModel, g: ValueModel, st: StateN, s1: Map<int, int>)
    requires
        data_matches(st.store, s1),
    ensures
        match (contributen_mul(st, b.id, a, g), contribute1_scaled(s1, b.id, g.data, a.data)) {
            (Some(st2), Some(s2)) => data_matches(st2.store, s2) && extends(st2.nodes, st.nodes),
            (None, None) => true,
            _ => false,
        },
{
    match b.id {
        None => {
            assert(extends(st.nodes, st.nodes));
        },
        Some(_) => {
            assert(in_i32(a.data * g.data) == in_i32(g.data * a.data) && a.data * g.data == g.data
                * a.data) by (nonlinear_arith);
            match tape_mul(st.nodes, a, g) {
                None => {},
                Some((n2, p)) => {
                    lemma_record_extends(st.nodes, OpModel::Mul(a, g), a.data * g.data);
                    let stn = StateN { nodes: n2, store: st.store };
                    lemma_contributen_projects(stn, s1, b.id, p);
                },
            }
        },
    }
}

/// The whole higher-order sweep projects onto the first-order sweep, step
/// by step, as long as the tape prefix it reads is the fixed one.
proof fn lemma_backwardn_projects(
    st: StateN,
    nodes0: Seq<NodeModel>,
    i: int,
    pend: Seq<bool>,
    s1: Map<int, int>,
)
    requires
        data_matches(st.store, s1),
        extends(st.nodes, nodes0),
        i < nodes0.len(),
    ensures
        match (backwardn(st, i, pend), backward1(nodes0, i, pend, s1)) {
            (OutcomeN::Done(_, mn), Outcome1::Done(m1)) => data_matches(mn, m1),
            (OutcomeN::Overflow, Outcome1::Overflow) => true,
            (OutcomeN::NoGradient, Outcome1::NoGradient) => true,
            _ => false,
        },
    decreases i + 1,
{
    if i < 0 {
    } else if pend[i] {
        assert(st.nodes[i] == nodes0[i]);
        match st.nodes[i].rule {
            None => {
                lemma_backwardn_projects(st, nodes0, i - 1, pend, s1);
            },
            Some(op) => {
                if st.store.contains_key(i) {
                    assert(s1.contains_key(i) && s1[i] == st.store[i].data);
                    lemma_applyn_projects(op, st.store[i], st, s1);
                    match (applyn(op, st.store[i], st), apply1(op, s1[i], s1)) {
                        (Some(st2), Some(s2)) => {
                            assert(extends(st2.nodes, nodes0));
                            lemma_backwardn_projects(
                                st2,
                                nodes0,
                                i - 1,
                                mark_targets(pend, op_targets(op), i),
                                s2,
                            );
                        },
                        _ => {},
                    }
                } else {
                    assert(!s1.contains_key(i));
                }
            },
        }
    } else {
        lemma_backwardn_projects(st, nodes0, i - 1, pend, s1);
    }
}

/// A higher-order backward pass computes, in the data of its tracked
/// gradients, exactly what a first-order pass over the same tape computes:
/// same handles, same gradient values, same failures. Keeping gradients
/// differentiable costs nothing in their values.
pub proof fn lemma_higher_order_carries_first_order(
    nodes: Seq<NodeModel>,
    start: int,
    seed: ValueModel,
)
    requires
        0 <= start < nodes.len(),
    ensures
        match (run_backwardn(nodes, start, seed), run_backward1(nodes, start, seed.data)) {
            (OutcomeN::Done(_, mn), Outcome1::Done(m1)) => data_matches(mn, m1),
            (OutcomeN::Overflow, Outcome1::Overflow) => true,
            (OutcomeN::NoGradient, Outcome1::NoGradient) => true,
            _ => false,
        },
{
    let st = StateN { nodes, store: map![start => seed] };
    let s1 = map![start => seed.data];
    assert(data_matches(st.store, s1));
    assert(extends(nodes, nodes));
    lemma_backwardn_projects(st, nodes, start, initial_pend(start), s1);
}


} // verus!
