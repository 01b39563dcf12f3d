//! What holds of validation for every schema, graph and memo table.

use crate::compiled::CompiledSchema;
use crate::graph::GraphView;
use crate::report::{Reason, ReasonKind};
use crate::schema::ShapeExpr;
use crate::semantics::{
    at_node, done, eval, eval_and, eval_arcs, eval_named, eval_or, eval_slots, zeros, Step,
};
use crate::state::{lemma_with_cell, unknown_total, with_cell, Status, Table};
use crate::table_laws::{lemma_eval_keeps, lemma_named_keeps, lemma_with_cell_dims};
use vstd::prelude::*;

verus! {

/// Every node conforms to the empty shape expression, and deciding so
/// leaves the memo table as it is.
pub proof fn law_empty_conforms(
    sc: CompiledSchema,
    g: GraphView,
    st: Table,
    node: usize,
    e: usize,
    depth: nat,
)
    requires
        e < sc.expr_seq().len(),
        sc.expr_seq()[e as int] is Empty,
    ensures
        eval(sc, g, st, node, e, depth).conforms(),
        eval(sc, g, st, node, e, depth).state == st,
{
}

/// A node conforms to a negation exactly when it violates the negated
/// expression, and violates it exactly when it conforms to that
/// expression. A failure to evaluate the negated expression is the failure
/// of the negation, never a verdict.
pub proof fn law_negation(
    sc: CompiledSchema,
    g: GraphView,
    st: Table,
    node: usize,
    e: usize,
    depth: nat,
)
    requires
        sc.wf(),
        e < sc.expr_seq().len(),
        sc.expr_seq()[e as int] is ShapeNot,
    ensures
        ({
            let x = sc.expr_seq()[e as int]->ShapeNot_expr;
            let inner = eval(sc, g, st, node, x, depth);
            let outer = eval(sc, g, st, node, e, depth);
            &&& outer.conforms() <==> inner.violates()
            &&& outer.violates() <==> inner.conforms()
            &&& inner.result is Err ==> outer.result == inner.result
            &&& outer.state == inner.state
        }),
{
    assert(sc.expr_seq()[e as int].ok_at(e as int, sc.label_seq().len() as int));
}

/// A pair that is decided is not evaluated again: validation returns the
/// decision that the memo table holds, whatever the graph holds and
/// however deep it may go, and leaves the table as it is.
pub proof fn law_decided_pair_is_answered_from_the_table(
    sc: CompiledSchema,
    g1: GraphView,
    g2: GraphView,
    st: Table,
    node: usize,
    at: usize,
    shape: usize,
    d1: nat,
    d2: nat,
)
    requires
        node < st.len(),
        shape < st[node as int].len(),
        shape < sc.root_seq().len(),
        st[node as int][shape as int] == Status::Conforms || st[node as int][shape as int]
            == Status::Violates,
    ensures
        eval_named(sc, g1, st, node, at, shape, d1) == eval_named(sc, g2, st, node, at, shape, d2),
        eval_named(sc, g1, st, node, at, shape, d1).state == st,
        eval_named(sc, g1, st, node, at, shape, d1).conforms() <==> st[node as int][shape as int]
            == Status::Conforms,
        eval_named(sc, g1, st, node, at, shape, d1).violates() <==> st[node as int][shape as int]
            == Status::Violates,
{
}

/// Validating a pair again within a run returns the verdict of the first
/// validation and changes nothing: the second validation is answered from
/// the memo table, whatever the graph holds then. This holds of every pair
/// that is not pending when it is first validated; a pending pair counts
/// as conforming and stays pending. `depth` is a bound as the validator
/// gives it: at least the number of unknown cells.
pub proof fn law_revalidation_returns_the_same_verdict(
    sc: CompiledSchema,
    g: GraphView,
    g2: GraphView,
    st: Table,
    node: usize,
    at: usize,
    shape: usize,
    depth: nat,
    depth2: nat,
)
    requires
        node < st.len(),
        shape < st[node as int].len(),
        shape < sc.root_seq().len(),
        st[node as int][shape as int] != Status::Pending,
        unknown_total(st) <= depth,
        eval_named(sc, g, st, node, at, shape, depth).result is Ok,
    ensures
        ({
            let first = eval_named(sc, g, st, node, at, shape, depth);
            let second = eval_named(sc, g2, first.state, node, at, shape, depth2);
            &&& second.result == first.result
            &&& second.state == first.state
        }),
{
    let first = eval_named(sc, g, st, node, at, shape, depth);
    lemma_named_keeps(sc, g, st, node, at, shape, depth);
    if st[node as int][shape as int] == Status::Unknown {
        lemma_with_cell(st, node as int, shape as int, Status::Pending);
        let st1 = with_cell(st, node as int, shape as int, Status::Pending);
        lemma_with_cell_dims(st, node as int, shape as int, Status::Pending);
        lemma_eval_keeps(sc, g, st1, node, sc.root_seq()[shape as int], (depth - 1) as nat);
        let s = eval(sc, g, st1, node, sc.root_seq()[shape as int], (depth - 1) as nat);
        assert(s.state[node as int].len() == st1[node as int].len());
        lemma_with_cell_dims(s.state, node as int, shape as int, Status::Conforms);
        lemma_with_cell_dims(s.state, node as int, shape as int, Status::Violates);
    }
}


/// The violations found so far are never dropped: what matching the arcs
/// from the `i`-th on returns holds `acc` and what it adds.
proof fn lemma_arcs_carry(
    sc: CompiledSchema,
    g: GraphView,
    st: Table,
    node: usize,
    e: usize,
    arcs: Seq<usize>,
    i: int,
    counts: Seq<usize>,
    acc: Seq<Reason>,
    depth: nat,
)
    ensures
        eval_arcs(sc, g, st, node, e, arcs, i, counts, acc, depth).result matches Ok(r)
            ==> r.len() >= acc.len(),
    decreases arcs.len() - i, usize::MAX + 1,
{
    if e < sc.expr_seq().len() {
        if sc.expr_seq()[e as int] is Shape {
            if !(i < 0 || i >= arcs.len()) {
                lemma_slots_carry(
                    sc,
                    g,
                    st,
                    node,
                    e,
                    arcs,
                    i,
                    0,
                    counts,
                    acc,
                    false,
                    None,
                    depth,
                );
            }
        }
    }
}

proof fn lemma_slots_carry(
    sc: CompiledSchema,
    g: GraphView,
    st: Table,
    node: usize,
    e: usize,
    arcs: Seq<usize>,
    i: int,
    c: usize,
    counts: Seq<usize>,
    acc: Seq<Reason>,
    covered: bool,
    over: Option<usize>,
    depth: nat,
)
    ensures
        eval_slots(
            sc,
            g,
            st,
            node,
            e,
            arcs,
            i,
            c,
            counts,
            acc,
            covered,
            over,
            depth,
        ).result matches Ok(r) ==> r.len() >= acc.len(),
    decreases arcs.len() - i, usize::MAX - c,
{
    if !(e >= sc.expr_seq().len() || i < 0 || i >= arcs.len()) {
        match sc.expr_seq()[e as int] {
            ShapeExpr::Shape(body) => {
                let triple = arcs[i];
                let t = g.triple_seq()[triple as int];
                if c >= body.constraints@.len() || c >= usize::MAX {
                    lemma_arcs_carry(
                        sc,
                        g,
                        st,
                        node,
                        e,
                        arcs,
                        i + 1,
                        counts,
                        acc + body.leftover(node, e, triple, t.object, t.predicate@, covered, over),
                        depth,
                    );
                } else {
                    let tc = body.constraints@[c as int];
                    let next = (c + 1) as usize;
                    if tc.predicate@ != t.predicate@ || tc.value_expr >= e {
                        lemma_slots_carry(
                            sc,
                            g,
                            st,
                            node,
                            e,
                            arcs,
                            i,
                            next,
                            counts,
                            acc,
                            covered,
                            over,
                            depth,
                        );
                    } else {
                        let s = eval(sc, g, st, t.object, tc.value_expr, depth);
                        match s.result {
                            Err(_) => {},
                            Ok(r) => {
                                if r.len() > 0 {
                                    lemma_slots_carry(
                                        sc,
                                        g,
                                        s.state,
                                        node,
                                        e,
                                        arcs,
                                        i,
                                        next,
                                        counts,
                                        acc,
                                        true,
                                        over,
                                        depth,
                                    );
                                } else if tc.max matches Some(m) && counts[c as int] >= m {
                                    lemma_slots_carry(
                                        sc,
                                        g,
                                        s.state,
                                        node,
                                        e,
                                        arcs,
                                        i,
                                        next,
                                        counts,
                                        acc,
                                        true,
                                        if over is Some {
                                            over
                                        } else {
                                            Some(c)
                                        },
                                        depth,
                                    );
                                } else {
                                    lemma_arcs_carry(
                                        sc,
                                        g,
                                        s.state,
                                        node,
                                        e,
                                        arcs,
                                        i + 1,
                                        counts.update(c as int, (counts[c as int] + 1) as usize),
                                        acc,
                                        depth,
                                    );
                                }
                            },
                        }
                    }
                }
            },
            _ => {},
        }
    }
}

/// The arc at position `a` has a predicate that no triple constraint of
/// the shape at `e` has, and the shape is closed and declares no extra
/// predicate.
pub open spec fn undeclared_arc(sc: CompiledSchema, g: GraphView, e: usize, arcs: Seq<usize>, a: int) -> bool {
    &&& e < sc.expr_seq().len()
    &&& sc.expr_seq()[e as int] matches ShapeExpr::Shape(body)
    &&& body.closed
    &&& body.extra@.len() == 0
    &&& 0 <= a < arcs.len()
    &&& forall|c: int|
        0 <= c < body.constraints@.len() ==> (#[trigger] body.constraints@[c]).predicate@
            != g.triple_seq()[arcs[a] as int].predicate@
}

proof fn lemma_arcs_reject(
    sc: CompiledSchema,
    g: GraphView,
    st: Table,
    node: usize,
    e: usize,
    arcs: Seq<usize>,
    i: int,
    counts: Seq<usize>,
    acc: Seq<Reason>,
    depth: nat,
    a: int,
)
    requires
        undeclared_arc(sc, g, e, arcs, a),
        0 <= i <= a,
    ensures
        !eval_arcs(sc, g, st, node, e, arcs, i, counts, acc, depth).conforms(),
    decreases arcs.len() - i, usize::MAX + 1,
{
    lemma_slots_reject(sc, g, st, node, e, arcs, i, 0, counts, acc, false, None, depth, a);
}

proof fn lemma_slots_reject(
    sc: CompiledSchema,
    g: GraphView,
    st: Table,
    node: usize,
    e: usize,
    arcs: Seq<usize>,
    i: int,
    c: usize,
    counts: Seq<usize>,
    acc: Seq<Reason>,
    covered: bool,
    over: Option<usize>,
    depth: nat,
    a: int,
)
    requires
        undeclared_arc(sc, g, e, arcs, a),
        0 <= i <= a,
        i == a ==> !covered && over is None,
    ensures
        !eval_slots(sc, g, st, node, e, arcs, i, c, counts, acc, covered, over, depth).conforms(),
    decreases arcs.len() - i, usize::MAX - c,
{
    match sc.expr_seq()[e as int] {
        ShapeExpr::Shape(body) => {
            let triple = arcs[i];
            let t = g.triple_seq()[triple as int];
            if c >= body.constraints@.len() || c >= usize::MAX {
                let left = body.leftover(node, e, triple, t.object, t.predicate@, covered, over);
                if i == a {
                    assert(!crate::semantics::in_texts(body.extra@, t.predicate@));
                    assert(left.len() == 1);
                    lemma_arcs_carry(sc, g, st, node, e, arcs, i + 1, counts, acc + left, depth);
                } else {
                    lemma_arcs_reject(sc, g, st, node, e, arcs, i + 1, counts, acc + left, depth, a);
                }
            } else {
                let tc = body.constraints@[c as int];
                let next = (c + 1) as usize;
                if tc.predicate@ != t.predicate@ || tc.value_expr >= e {
                    lemma_slots_reject(
                        sc,
                        g,
                        st,
                        node,
                        e,
                        arcs,
                        i,
                        next,
                        counts,
                        acc,
                        covered,
                        over,
                        depth,
                        a,
                    );
                } else {
                    assert(i != a);
                    let s = eval(sc, g, st, t.object, tc.value_expr, depth);
                    match s.result {
                        Err(_) => {},
                        Ok(r) => {
                            if r.len() > 0 {
                                lemma_slots_reject(
                                    sc,
                                    g,
                                    s.state,
                                    node,
                                    e,
                                    arcs,
                                    i,
                                    next,
                                    counts,
                                    acc,
                                    true,
                                    over,
                                    depth,
                                    a,
                                );
                            } else if tc.max matches Some(m) && counts[c as int] >= m {
                                lemma_slots_reject(
                                    sc,
                                    g,
                                    s.state,
                                    node,
                                    e,
                                    arcs,
                                    i,
                                    next,
                                    counts,
                                    acc,
                                    true,
                                    if over is Some {
                                        over
                                    } else {
                                        Some(c)
                                    },
                                    depth,
                                    a,
                                );
                            } else {
                                lemma_arcs_reject(
                                    sc,
                                    g,
                                    s.state,
                                    node,
                                    e,
                                    arcs,
                                    i + 1,
                                    counts.update(c as int, (counts[c as int] + 1) as usize),
                                    acc,
                                    depth,
                                    a,
                                );
                            }
                        },
                    }
                }
            }
        },
        _ => {},
    }
}

/// No node conforms to a closed shape without extra predicates when it
/// has an arc whose predicate no triple constraint of the shape has.
pub proof fn law_closed_shape_rejects_an_undeclared_predicate(
    sc: CompiledSchema,
    g: GraphView,
    st: Table,
    node: usize,
    e: usize,
    depth: nat,
    a: int,
)
    requires
        undeclared_arc(sc, g, e, g.neighbours(node as int), a),
    ensures
        !eval(sc, g, st, node, e, depth).conforms(),
{
    let body = sc.expr_seq()[e as int]->Shape_0;
    if g.readable_seq()[node as int] {
        lemma_arcs_reject(
            sc,
            g,
            st,
            node,
            e,
            g.neighbours(node as int),
            0,
            zeros(body.constraints@.len()),
            Seq::empty(),
            depth,
            a,
        );
    }
}


/// The constraint at `c` of the shape at `e` asks for one value at least
/// and no arc among `arcs` has its predicate.
pub open spec fn starved(sc: CompiledSchema, g: GraphView, e: usize, arcs: Seq<usize>, c: int) -> bool {
    &&& e < sc.expr_seq().len()
    &&& sc.expr_seq()[e as int] matches ShapeExpr::Shape(body)
    &&& 0 <= c < body.constraints@.len()
    &&& body.constraints@[c].min >= 1
    &&& forall|a: int|
        0 <= a < arcs.len() ==> g.triple_seq()[(#[trigger] arcs[a]) as int].predicate@
            != body.constraints@[c].predicate@
}

/// A constraint below its minimum leaves a violation.
proof fn lemma_unmet_counts(
    body: crate::schema::ShapeBody,
    counts: Seq<usize>,
    node: usize,
    e: usize,
    k: int,
    c: int,
)
    requires
        0 <= k <= c < body.constraints@.len(),
        counts[c] < body.constraints@[c].min,
    ensures
        body.unmet(counts, node, e, k).len() >= 1,
    decreases c - k,
{
    if k < c {
        lemma_unmet_counts(body, counts, node, e, k + 1, c);
    }
}

proof fn lemma_arcs_starve(
    sc: CompiledSchema,
    g: GraphView,
    st: Table,
    node: usize,
    e: usize,
    arcs: Seq<usize>,
    i: int,
    counts: Seq<usize>,
    acc: Seq<Reason>,
    depth: nat,
    c: int,
)
    requires
        starved(sc, g, e, arcs, c),
        0 <= i,
        counts.len() == (sc.expr_seq()[e as int]->Shape_0).constraints@.len(),
        counts[c] == 0,
    ensures
        !eval_arcs(sc, g, st, node, e, arcs, i, counts, acc, depth).conforms(),
    decreases arcs.len() - i, usize::MAX + 1,
{
    let body = sc.expr_seq()[e as int]->Shape_0;
    if i >= arcs.len() {
        lemma_unmet_counts(body, counts, node, e, 0, c);
    } else {
        lemma_slots_starve(sc, g, st, node, e, arcs, i, 0, counts, acc, false, None, depth, c);
    }
}

proof fn lemma_slots_starve(
    sc: CompiledSchema,
    g: GraphView,
    st: Table,
    node: usize,
    e: usize,
    arcs: Seq<usize>,
    i: int,
    k: usize,
    counts: Seq<usize>,
    acc: Seq<Reason>,
    covered: bool,
    over: Option<usize>,
    depth: nat,
    c: int,
)
    requires
        starved(sc, g, e, arcs, c),
        0 <= i < arcs.len(),
        counts.len() == (sc.expr_seq()[e as int]->Shape_0).constraints@.len(),
        counts[c] == 0,
    ensures
        !eval_slots(sc, g, st, node, e, arcs, i, k, counts, acc, covered, over, depth).conforms(),
    decreases arcs.len() - i, usize::MAX - k,
{
    let body = sc.expr_seq()[e as int]->Shape_0;
    let triple = arcs[i];
    let t = g.triple_seq()[triple as int];
    if k >= body.constraints@.len() || k >= usize::MAX {
        lemma_arcs_starve(
            sc,
            g,
            st,
            node,
            e,
            arcs,
            i + 1,
            counts,
            acc + body.leftover(node, e, triple, t.object, t.predicate@, covered, over),
            depth,
            c,
        );
    } else {
        let tc = body.constraints@[k as int];
        let next = (k + 1) as usize;
        if tc.predicate@ != t.predicate@ || tc.value_expr >= e {
            lemma_slots_starve(
                sc,
                g,
                st,
                node,
                e,
                arcs,
                i,
                next,
                counts,
                acc,
                covered,
                over,
                depth,
                c,
            );
        } else {
            assert(k != c);
            let s = eval(sc, g, st, t.object, tc.value_expr, depth);
            match s.result {
                Err(_) => {},
                Ok(r) => {
                    if r.len() > 0 {
                        lemma_slots_starve(
                            sc,
                            g,
                            s.state,
                            node,
                            e,
                            arcs,
                            i,
                            next,
                            counts,
                            acc,
                            true,
                            over,
                            depth,
                            c,
                        );
                    } else if tc.max matches Some(m) && counts[k as int] >= m {
                        lemma_slots_starve(
                            sc,
                            g,
                            s.state,
                            node,
                            e,
                            arcs,
                            i,
                            next,
                            counts,
                            acc,
                            true,
                            if over is Some {
                                over
                            } else {
                                Some(k)
                            },
                            depth,
                            c,
                        );
                    } else {
                        lemma_arcs_starve(
                            sc,
                            g,
                            s.state,
                            node,
                            e,
                            arcs,
                            i + 1,
                            counts.update(k as int, (counts[k as int] + 1) as usize),
                            acc,
                            depth,
                            c,
                        );
                    }
                },
            }
        }
    }
}

/// No node conforms to a shape with a triple constraint that asks for one
/// value at least of a predicate of which the node has none.
pub proof fn law_missing_value_violates(
    sc: CompiledSchema,
    g: GraphView,
    st: Table,
    node: usize,
    e: usize,
    depth: nat,
    c: int,
)
    requires
        starved(sc, g, e, g.neighbours(node as int), c),
    ensures
        !eval(sc, g, st, node, e, depth).conforms(),
{
    let body = sc.expr_seq()[e as int]->Shape_0;
    if g.readable_seq()[node as int] {
        lemma_arcs_starve(
            sc,
            g,
            st,
            node,
            e,
            g.neighbours(node as int),
            0,
            zeros(body.constraints@.len()),
            Seq::empty(),
            depth,
            c,
        );
    }
}


/// A term that stands alone, as a term does that the graph does not hold,
/// violates every shape with a triple constraint that asks for one value
/// at least: it has no arcs, so the verdict is a violation and never a
/// failure to read.
pub proof fn law_node_without_arcs_violates_a_minimum(
    sc: CompiledSchema,
    t: crate::term::TermView,
    st: Table,
    e: usize,
    depth: nat,
    c: int,
)
    requires
        e < sc.expr_seq().len(),
        sc.expr_seq()[e as int] matches ShapeExpr::Shape(body) && 0 <= c < body.constraints@.len()
            && body.constraints@[c].min >= 1,
    ensures
        eval(sc, GraphView::lone(t), st, 0, e, depth).violates(),
        eval(sc, GraphView::lone(t), st, 0, e, depth).state == st,
{
    let body = sc.expr_seq()[e as int]->Shape_0;
    let lone = GraphView::lone(t);
    let counts = zeros(body.constraints@.len());
    assert(lone.readable_seq()[0]);
    assert(lone.neighbours(0) =~= Seq::<usize>::empty());
    assert(counts[c] == 0);
    lemma_unmet_counts(body, counts, 0, e, 0, c);
    assert(eval(sc, lone, st, 0, e, depth) == eval_arcs(
        sc,
        lone,
        st,
        0,
        e,
        lone.neighbours(0),
        0,
        counts,
        Seq::empty(),
        depth,
    ));
}


/// The table on which the `k`-th operand of a conjunction or disjunction
/// is evaluated: the one that the operands before it left, one after the
/// other.
pub open spec fn table_before(
    sc: CompiledSchema,
    g: GraphView,
    st: Table,
    node: usize,
    ops: Seq<usize>,
    k: int,
    depth: nat,
) -> Table
    decreases k,
{
    if k <= 0 {
        st
    } else {
        eval(sc, g, table_before(sc, g, st, node, ops, k - 1, depth), node, ops[k - 1], depth).state
    }
}

/// The evaluation of the `k`-th operand, on the table that the operands
/// before it left.
pub open spec fn operand(
    sc: CompiledSchema,
    g: GraphView,
    st: Table,
    node: usize,
    ops: Seq<usize>,
    k: int,
    depth: nat,
) -> Step {
    eval(sc, g, table_before(sc, g, st, node, ops, k, depth), node, ops[k], depth)
}

/// The reasons of the first `k` operands, one operand after the other.
pub open spec fn gathered(
    sc: CompiledSchema,
    g: GraphView,
    st: Table,
    node: usize,
    ops: Seq<usize>,
    k: int,
    depth: nat,
) -> Seq<Reason>
    decreases k,
{
    if k <= 0 {
        Seq::empty()
    } else {
        gathered(sc, g, st, node, ops, k - 1, depth) + match operand(
            sc,
            g,
            st,
            node,
            ops,
            k - 1,
            depth,
        ).result {
            Ok(r) => r,
            Err(_) => Seq::empty(),
        }
    }
}

proof fn lemma_and_from(
    sc: CompiledSchema,
    g: GraphView,
    st: Table,
    node: usize,
    e: usize,
    ops: Seq<usize>,
    k: int,
    depth: nat,
)
    requires
        0 <= k <= ops.len(),
        forall|j: int| 0 <= j < ops.len() ==> (#[trigger] ops[j]) < e,
    ensures
        ({
            let r = eval_and(
                sc,
                g,
                table_before(sc, g, st, node, ops, k, depth),
                node,
                e,
                ops,
                k,
                depth,
            );
            &&& r.conforms() <==> forall|j: int|
                k <= j < ops.len() ==> (#[trigger] operand(sc, g, st, node, ops, j, depth)).conforms()
            &&& forall|m: int|
                k <= m < ops.len() && !(#[trigger] operand(sc, g, st, node, ops, m, depth)).conforms()
                    && (forall|j: int|
                    k <= j < m ==> (#[trigger] operand(sc, g, st, node, ops, j, depth)).conforms())
                    ==> r == operand(sc, g, st, node, ops, m, depth)
        }),
    decreases ops.len() - k,
{
    if k < ops.len() {
        let here = operand(sc, g, st, node, ops, k, depth);
        assert(ops[k] < e);
        assert(table_before(sc, g, st, node, ops, k + 1, depth) == here.state);
        lemma_and_from(sc, g, st, node, e, ops, k + 1, depth);
        let r = eval_and(sc, g, table_before(sc, g, st, node, ops, k, depth), node, e, ops, k, depth);
        if here.conforms() {
            assert forall|m: int|
                k <= m < ops.len() && !(#[trigger] operand(sc, g, st, node, ops, m, depth)).conforms()
                    && (forall|j: int|
                    k <= j < m ==> (#[trigger] operand(
                        sc,
                        g,
                        st,
                        node,
                        ops,
                        j,
                        depth,
                    )).conforms()) implies r == operand(sc, g, st, node, ops, m, depth) by {
                assert(m != k);
            }
        } else {
            assert(r == here);
            assert forall|m: int|
                k <= m < ops.len() && !(#[trigger] operand(sc, g, st, node, ops, m, depth)).conforms()
                    && (forall|j: int|
                    k <= j < m ==> (#[trigger] operand(
                        sc,
                        g,
                        st,
                        node,
                        ops,
                        j,
                        depth,
                    )).conforms()) implies r == operand(sc, g, st, node, ops, m, depth) by {
                if m > k {
                    assert(operand(sc, g, st, node, ops, k, depth).conforms());
                }
            }
        }
    }
}

/// A node conforms to a conjunction exactly when it conforms to every
/// operand, each evaluated on the table that the operands before it left.
/// Else the result is that of the first operand to which it does not
/// conform: its reasons, or its failure.
pub proof fn law_conjunction(
    sc: CompiledSchema,
    g: GraphView,
    st: Table,
    node: usize,
    e: usize,
    depth: nat,
)
    requires
        sc.wf(),
        e < sc.expr_seq().len(),
        sc.expr_seq()[e as int] is ShapeAnd,
    ensures
        ({
            let ops = (sc.expr_seq()[e as int]->ShapeAnd_exprs)@;
            let r = eval(sc, g, st, node, e, depth);
            &&& r.conforms() <==> forall|j: int|
                0 <= j < ops.len() ==> (#[trigger] operand(sc, g, st, node, ops, j, depth)).conforms()
            &&& forall|m: int|
                0 <= m < ops.len() && !(#[trigger] operand(sc, g, st, node, ops, m, depth)).conforms()
                    && (forall|j: int|
                    0 <= j < m ==> (#[trigger] operand(sc, g, st, node, ops, j, depth)).conforms())
                    ==> r == operand(sc, g, st, node, ops, m, depth)
        }),
{
    let ops = (sc.expr_seq()[e as int]->ShapeAnd_exprs)@;
    assert(sc.expr_seq()[e as int].ok_at(e as int, sc.label_seq().len() as int));
    lemma_and_from(sc, g, st, node, e, ops, 0, depth);
}

proof fn lemma_or_from(
    sc: CompiledSchema,
    g: GraphView,
    st: Table,
    node: usize,
    e: usize,
    ops: Seq<usize>,
    k: int,
    depth: nat,
)
    requires
        0 <= k <= ops.len(),
        forall|j: int| 0 <= j < ops.len() ==> (#[trigger] ops[j]) < e,
        forall|j: int| 0 <= j < k ==> (#[trigger] operand(sc, g, st, node, ops, j, depth)).violates(),
    ensures
        ({
            let r = eval_or(
                sc,
                g,
                table_before(sc, g, st, node, ops, k, depth),
                node,
                e,
                ops,
                k,
                gathered(sc, g, st, node, ops, k, depth),
                depth,
            );
            &&& (forall|j: int|
                k <= j < ops.len() ==> (#[trigger] operand(sc, g, st, node, ops, j, depth)).violates())
                ==> r == done(
                table_before(sc, g, st, node, ops, ops.len() as int, depth),
                seq![at_node(node, e, ReasonKind::NoAlternative)] + gathered(
                    sc,
                    g,
                    st,
                    node,
                    ops,
                    ops.len() as int,
                    depth,
                ),
            )
            &&& r.violates() ==> forall|j: int|
                k <= j < ops.len() ==> (#[trigger] operand(sc, g, st, node, ops, j, depth)).violates()
            &&& forall|m: int|
                k <= m < ops.len() && !(#[trigger] operand(sc, g, st, node, ops, m, depth)).violates()
                    && (forall|j: int|
                    k <= j < m ==> (#[trigger] operand(sc, g, st, node, ops, j, depth)).violates())
                    ==> r == operand(sc, g, st, node, ops, m, depth)
        }),
    decreases ops.len() - k,
{
    if k < ops.len() {
        let here = operand(sc, g, st, node, ops, k, depth);
        assert(ops[k] < e);
        assert(table_before(sc, g, st, node, ops, k + 1, depth) == here.state);
        let r = eval_or(
            sc,
            g,
            table_before(sc, g, st, node, ops, k, depth),
            node,
            e,
            ops,
            k,
            gathered(sc, g, st, node, ops, k, depth),
            depth,
        );
        if here.violates() {
            assert(gathered(sc, g, st, node, ops, k + 1, depth) == gathered(
                sc,
                g,
                st,
                node,
                ops,
                k,
                depth,
            ) + here.result->Ok_0);
            assert forall|j: int| 0 <= j < k + 1 implies (#[trigger] operand(
                sc,
                g,
                st,
                node,
                ops,
                j,
                depth,
            )).violates() by {}
            lemma_or_from(sc, g, st, node, e, ops, k + 1, depth);
            assert forall|m: int|
                k <= m < ops.len() && !(#[trigger] operand(sc, g, st, node, ops, m, depth)).violates()
                    && (forall|j: int|
                    k <= j < m ==> (#[trigger] operand(
                        sc,
                        g,
                        st,
                        node,
                        ops,
                        j,
                        depth,
                    )).violates()) implies r == operand(sc, g, st, node, ops, m, depth) by {
                assert(m != k);
            }
        } else {
            assert(r == here);
            assert forall|m: int|
                k <= m < ops.len() && !(#[trigger] operand(sc, g, st, node, ops, m, depth)).violates()
                    && (forall|j: int|
                    k <= j < m ==> (#[trigger] operand(
                        sc,
                        g,
                        st,
                        node,
                        ops,
                        j,
                        depth,
                    )).violates()) implies r == operand(sc, g, st, node, ops, m, depth) by {
                if m > k {
                    assert(operand(sc, g, st, node, ops, k, depth).violates());
                }
            }
        }
    }
}

/// A node violates a disjunction exactly when it violates every operand,
/// each evaluated on the table that the operands before it left; the
/// verdict then holds a reason of its own followed by the reasons of all
/// operands, in order. Else the result is that of the first operand that
/// it does not violate: conformance, or that operand's failure.
pub proof fn law_disjunction(
    sc: CompiledSchema,
    g: GraphView,
    st: Table,
    node: usize,
    e: usize,
    depth: nat,
)
    requires
        sc.wf(),
        e < sc.expr_seq().len(),
        sc.expr_seq()[e as int] is ShapeOr,
    ensures
        ({
            let ops = (sc.expr_seq()[e as int]->ShapeOr_exprs)@;
            let r = eval(sc, g, st, node, e, depth);
            &&& r.violates() <==> forall|j: int|
                0 <= j < ops.len() ==> (#[trigger] operand(sc, g, st, node, ops, j, depth)).violates()
            &&& r.violates() ==> r.result == Ok::<Seq<Reason>, crate::report::EvaluationError>(
                seq![at_node(node, e, ReasonKind::NoAlternative)] + gathered(
                    sc,
                    g,
                    st,
                    node,
                    ops,
                    ops.len() as int,
                    depth,
                ),
            )
            &&& forall|m: int|
                0 <= m < ops.len() && !(#[trigger] operand(sc, g, st, node, ops, m, depth)).violates()
                    && (forall|j: int|
                    0 <= j < m ==> (#[trigger] operand(sc, g, st, node, ops, j, depth)).violates())
                    ==> r == operand(sc, g, st, node, ops, m, depth)
        }),
{
    let ops = (sc.expr_seq()[e as int]->ShapeOr_exprs)@;
    assert(sc.expr_seq()[e as int].ok_at(e as int, sc.label_seq().len() as int));
    lemma_or_from(sc, g, st, node, e, ops, 0, depth);
}

} // verus!
