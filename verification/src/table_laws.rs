//! What holds of the memo table over every validation.

use crate::compiled::CompiledSchema;
use crate::graph::GraphView;
use crate::report::Reason;
use crate::schema::ShapeExpr;
use crate::semantics::{eval, eval_and, eval_arcs, eval_named, eval_or, eval_slots, zeros};
use crate::state::{lemma_with_cell, unknown_total, with_cell, Status, Table};
use vstd::prelude::*;

verus! {

/// Two tables have the same rows and the same cells in each row.
pub open spec fn same_dims(a: Table, b: Table) -> bool {
    &&& a.len() == b.len()
    &&& forall|i: int| 0 <= i < a.len() ==> (#[trigger] a[i]).len() == b[i].len()
}

/// The table `after` has the dimensions of `before` and every cell that
/// is not unknown in `before` is the same in `after`.
pub open spec fn kept(after: Table, before: Table) -> bool {
    &&& same_dims(after, before)
    &&& forall|n: int, i: int|
        0 <= n < before.len() && 0 <= i < before[n].len() && before[n][i] != Status::Unknown
            ==> (#[trigger] after[n][i]) == before[n][i]
}

/// Validation never changes the dimensions of the memo table, and it
/// changes no cell that is pending or decided when it starts: a pair is
/// decided once.
pub proof fn lemma_eval_keeps(
    sc: CompiledSchema,
    g: GraphView,
    st: Table,
    node: usize,
    e: usize,
    depth: nat,
)
    ensures
        kept(eval(sc, g, st, node, e, depth).state, st),
    decreases depth, e, 1int, 0int, 0int,
{
    if e < sc.expr_seq().len() {
        match sc.expr_seq()[e as int] {
            ShapeExpr::ShapeNot { expr } => {
                if expr < e {
                    lemma_eval_keeps(sc, g, st, node, expr, depth);
                }
            },
            ShapeExpr::ShapeAnd { exprs } => {
                lemma_and_keeps(sc, g, st, node, e, exprs@, 0, depth);
            },
            ShapeExpr::ShapeOr { exprs } => {
                lemma_or_keeps(sc, g, st, node, e, exprs@, 0, Seq::empty(), depth);
            },
            ShapeExpr::Ref { idx } => {
                lemma_named_keeps(sc, g, st, node, e, idx.index, depth);
            },
            ShapeExpr::Shape(body) => {
                if g.readable_seq()[node as int] {
                    lemma_arcs_keep(
                        sc,
                        g,
                        st,
                        node,
                        e,
                        g.neighbours(node as int),
                        0,
                        zeros(body.constraints@.len()),
                        Seq::empty(),
                        depth,
                    );
                }
            },
            _ => {},
        }
    }
}

/// Setting a cell that the table has keeps the dimensions and every
/// other cell.
pub proof fn lemma_with_cell_dims(t: Table, node: int, shape: int, status: Status)
    requires
        0 <= node < t.len(),
        0 <= shape < t[node].len(),
    ensures
        same_dims(with_cell(t, node, shape, status), t),
        with_cell(t, node, shape, status)[node][shape] == status,
        forall|n: int, i: int|
            0 <= n < t.len() && 0 <= i < t[n].len() && !(n == node && i == shape)
                ==> #[trigger] with_cell(t, node, shape, status)[n][i] == t[n][i],
{
}

/// Validation against a named shape keeps the dimensions of the table
/// and every cell that is pending or decided when it starts.
pub proof fn lemma_named_keeps(
    sc: CompiledSchema,
    g: GraphView,
    st: Table,
    node: usize,
    at: usize,
    shape: usize,
    depth: nat,
)
    ensures
        kept(eval_named(sc, g, st, node, at, shape, depth).state, st),
    decreases depth, at, 0int, 0int, 0int,
{
    if !(node >= st.len() || shape >= st[node as int].len() || shape >= sc.root_seq().len()) {
        if st[node as int][shape as int] == Status::Unknown && depth > 0 {
            let st1 = with_cell(st, node as int, shape as int, Status::Pending);
            lemma_with_cell_dims(st, node as int, shape as int, Status::Pending);
            lemma_eval_keeps(
                sc,
                g,
                st1,
                node,
                sc.root_seq()[shape as int],
                (depth - 1) as nat,
            );
            let s = eval(sc, g, st1, node, sc.root_seq()[shape as int], (depth - 1) as nat);
            assert(s.state[node as int].len() == st1[node as int].len());
            lemma_with_cell_dims(s.state, node as int, shape as int, Status::Unknown);
            lemma_with_cell_dims(s.state, node as int, shape as int, Status::Conforms);
            lemma_with_cell_dims(s.state, node as int, shape as int, Status::Violates);
            let out = eval_named(sc, g, st, node, at, shape, depth).state;
            assert(same_dims(out, s.state));
            assert forall|i: int| 0 <= i < out.len() implies (#[trigger] out[i]).len()
                == st[i].len() by {
                assert(s.state[i].len() == st1[i].len());
            }
            assert forall|n: int, i: int|
                0 <= n < st.len() && 0 <= i < st[n].len() && st[n][i]
                    != Status::Unknown implies (#[trigger] out[n][i]) == st[n][i] by {
                assert(!(n == node && i == shape));
                assert(st1[n][i] == st[n][i]);
                assert(s.state[n][i] == st1[n][i]);
                assert(s.state[n].len() == st1[n].len());
            }
        }
    }
}

proof fn lemma_and_keeps(
    sc: CompiledSchema,
    g: GraphView,
    st: Table,
    node: usize,
    e: usize,
    ops: Seq<usize>,
    k: int,
    depth: nat,
)
    ensures
        kept(eval_and(sc, g, st, node, e, ops, k, depth).state, st),
    decreases depth, e, 0int, ops.len() - k, 0int,
{
    if !(k < 0 || k >= ops.len() || ops[k] >= e) {
        lemma_eval_keeps(sc, g, st, node, ops[k], depth);
        let s = eval(sc, g, st, node, ops[k], depth);
        if s.conforms() {
            lemma_and_keeps(sc, g, s.state, node, e, ops, k + 1, depth);
            lemma_kept_chain(eval_and(sc, g, s.state, node, e, ops, k + 1, depth).state, s.state, st);
        }
    }
}

proof fn lemma_or_keeps(
    sc: CompiledSchema,
    g: GraphView,
    st: Table,
    node: usize,
    e: usize,
    ops: Seq<usize>,
    k: int,
    acc: Seq<Reason>,
    depth: nat,
)
    ensures
        kept(eval_or(sc, g, st, node, e, ops, k, acc, depth).state, st),
    decreases depth, e, 0int, ops.len() - k, 0int,
{
    if !(k < 0 || k >= ops.len() || ops[k] >= e) {
        lemma_eval_keeps(sc, g, st, node, ops[k], depth);
        let s = eval(sc, g, st, node, ops[k], depth);
        if s.violates() {
            let r = s.result->Ok_0;
            lemma_or_keeps(sc, g, s.state, node, e, ops, k + 1, acc + r, depth);
            lemma_kept_chain(
                eval_or(sc, g, s.state, node, e, ops, k + 1, acc + r, depth).state,
                s.state,
                st,
            );
        }
    }
}

/// What is kept over two steps is kept over both.
proof fn lemma_kept_chain(a: Table, b: Table, c: Table)
    requires
        kept(a, b),
        kept(b, c),
    ensures
        kept(a, c),
{
    assert forall|i: int| 0 <= i < a.len() implies (#[trigger] a[i]).len() == c[i].len() by {
        assert(b[i].len() == c[i].len());
    }
    assert forall|n: int, i: int|
        0 <= n < c.len() && 0 <= i < c[n].len() && c[n][i] != Status::Unknown implies (
    #[trigger] a[n][i]) == c[n][i] by {
        assert(b[n].len() == c[n].len());
        assert(b[n][i] == c[n][i]);
    }
}

proof fn lemma_arcs_keep(
    sc: CompiledSchema,
    g: GraphView,
    st: Table,
    node: usize,
    e: usize,
    arcs: Seq<usize>,
    i: int,
    counts: Seq<usize>,
    acc: Seq<Reason>,
    depth: nat,
)
    ensures
        kept(eval_arcs(sc, g, st, node, e, arcs, i, counts, acc, depth).state, st),
    decreases depth, e, 0int, arcs.len() - i, usize::MAX + 1,
{
    if e < sc.expr_seq().len() {
        if sc.expr_seq()[e as int] is Shape {
            if !(i < 0 || i >= arcs.len()) {
                lemma_slots_keep(
                    sc,
                    g,
                    st,
                    node,
                    e,
                    arcs,
                    i,
                    0,
                    counts,
                    acc,
                    false,
                    None,
                    depth,
                );
            }
        }
    }
}

proof fn lemma_slots_keep(
    sc: CompiledSchema,
    g: GraphView,
    st: Table,
    node: usize,
    e: usize,
    arcs: Seq<usize>,
    i: int,
    c: usize,
    counts: Seq<usize>,
    acc: Seq<Reason>,
    covered: bool,
    over: Option<usize>,
    depth: nat,
)
    ensures
        kept(
            eval_slots(sc, g, st, node, e, arcs, i, c, counts, acc, covered, over, depth).state,
            st,
        ),
    decreases depth, e, 0int, arcs.len() - i, usize::MAX - c,
{
    if !(e >= sc.expr_seq().len() || i < 0 || i >= arcs.len()) {
        match sc.expr_seq()[e as int] {
            ShapeExpr::Shape(body) => {
                let triple = arcs[i];
                let t = g.triple_seq()[triple as int];
                if c >= body.constraints@.len() || c >= usize::MAX {
                    lemma_arcs_keep(
                        sc,
                        g,
                        st,
                        node,
                        e,
                        arcs,
                        i + 1,
                        counts,
                        acc + body.leftover(node, e, triple, t.object, t.predicate@, covered, over),
                        depth,
                    );
                } else {
                    let tc = body.constraints@[c as int];
                    let next = (c + 1) as usize;
                    if tc.predicate@ != t.predicate@ || tc.value_expr >= e {
                        lemma_slots_keep(
                            sc,
                            g,
                            st,
                            node,
                            e,
                            arcs,
                            i,
                            next,
                            counts,
                            acc,
                            covered,
                            over,
                            depth,
                        );
                    } else {
                        lemma_eval_keeps(sc, g, st, t.object, tc.value_expr, depth);
                        let s = eval(sc, g, st, t.object, tc.value_expr, depth);
                        match s.result {
                            Err(_) => {},
                            Ok(r) => {
                                if r.len() > 0 {
                                    lemma_slots_keep(
                                        sc,
                                        g,
                                        s.state,
                                        node,
                                        e,
                                        arcs,
                                        i,
                                        next,
                                        counts,
                                        acc,
                                        true,
                                        over,
                                        depth,
                                    );
                                } else if tc.max matches Some(m) && counts[c as int] >= m {
                                    lemma_slots_keep(
                                        sc,
                                        g,
                                        s.state,
                                        node,
                                        e,
                                        arcs,
                                        i,
                                        next,
                                        counts,
                                        acc,
                                        true,
                                        if over is Some {
                                            over
                                        } else {
                                            Some(c)
                                        },
                                        depth,
                                    );
                                } else {
                                    lemma_arcs_keep(
                                        sc,
                                        g,
                                        s.state,
                                        node,
                                        e,
                                        arcs,
                                        i + 1,
                                        counts.update(c as int, (counts[c as int] + 1) as usize),
                                        acc,
                                        depth,
                                    );
                                }
                                lemma_kept_chain(
                                    eval_slots(
                                        sc,
                                        g,
                                        st,
                                        node,
                                        e,
                                        arcs,
                                        i,
                                        c,
                                        counts,
                                        acc,
                                        covered,
                                        over,
                                        depth,
                                    ).state,
                                    s.state,
                                    st,
                                );
                            },
                        }
                    }
                }
            },
            _ => {},
        }
    }
}

/// The bound on the depth is never reached: with any bound of the number
/// of unknown cells at least, validation returns the same verdict and
/// leaves the same table. And validation never makes a cell unknown that
/// was not: the number of unknown cells does not grow.
pub proof fn law_depth_is_immaterial(
    sc: CompiledSchema,
    g: GraphView,
    st: Table,
    node: usize,
    e: usize,
    d1: nat,
    d2: nat,
)
    requires
        unknown_total(st) <= d1,
        unknown_total(st) <= d2,
    ensures
        eval(sc, g, st, node, e, d1) == eval(sc, g, st, node, e, d2),
        unknown_total(eval(sc, g, st, node, e, d1).state) <= unknown_total(st),
    decreases d1, e, 1int, 0int, 0int,
{
    if e < sc.expr_seq().len() {
        match sc.expr_seq()[e as int] {
            ShapeExpr::ShapeNot { expr } => {
                if expr < e {
                    law_depth_is_immaterial(sc, g, st, node, expr, d1, d2);
                }
            },
            ShapeExpr::ShapeAnd { exprs } => {
                lemma_and_depth(sc, g, st, node, e, exprs@, 0, d1, d2);
            },
            ShapeExpr::ShapeOr { exprs } => {
                lemma_or_depth(sc, g, st, node, e, exprs@, 0, Seq::empty(), d1, d2);
            },
            ShapeExpr::Ref { idx } => {
                law_depth_is_immaterial_for_named_shapes(sc, g, st, node, e, idx.index, d1, d2);
            },
            ShapeExpr::Shape(body) => {
                if g.readable_seq()[node as int] {
                    lemma_arcs_depth(
                        sc,
                        g,
                        st,
                        node,
                        e,
                        g.neighbours(node as int),
                        0,
                        zeros(body.constraints@.len()),
                        Seq::empty(),
                        d1,
                        d2,
                    );
                }
            },
            _ => {},
        }
    }
}

/// The same for validation against a named shape.
pub proof fn law_depth_is_immaterial_for_named_shapes(
    sc: CompiledSchema,
    g: GraphView,
    st: Table,
    node: usize,
    at: usize,
    shape: usize,
    d1: nat,
    d2: nat,
)
    requires
        unknown_total(st) <= d1,
        unknown_total(st) <= d2,
    ensures
        eval_named(sc, g, st, node, at, shape, d1) == eval_named(sc, g, st, node, at, shape, d2),
        unknown_total(eval_named(sc, g, st, node, at, shape, d1).state) <= unknown_total(st),
    decreases d1, at, 0int, 0int, 0int,
{
    if !(node >= st.len() || shape >= st[node as int].len() || shape >= sc.root_seq().len()) {
        if st[node as int][shape as int] == Status::Unknown {
            let st1 = with_cell(st, node as int, shape as int, Status::Pending);
            lemma_with_cell(st, node as int, shape as int, Status::Pending);
            lemma_with_cell_dims(st, node as int, shape as int, Status::Pending);
            let root = sc.root_seq()[shape as int];
            law_depth_is_immaterial(sc, g, st1, node, root, (d1 - 1) as nat, (d2 - 1) as nat);
            lemma_eval_keeps(sc, g, st1, node, root, (d1 - 1) as nat);
            let s = eval(sc, g, st1, node, root, (d1 - 1) as nat);
            assert(s.state[node as int].len() == st1[node as int].len());
            assert(s.state[node as int][shape as int] == Status::Pending);
            lemma_with_cell(s.state, node as int, shape as int, Status::Unknown);
            lemma_with_cell(s.state, node as int, shape as int, Status::Conforms);
            lemma_with_cell(s.state, node as int, shape as int, Status::Violates);
        }
    }
}

proof fn lemma_and_depth(
    sc: CompiledSchema,
    g: GraphView,
    st: Table,
    node: usize,
    e: usize,
    ops: Seq<usize>,
    k: int,
    d1: nat,
    d2: nat,
)
    requires
        unknown_total(st) <= d1,
        unknown_total(st) <= d2,
    ensures
        eval_and(sc, g, st, node, e, ops, k, d1) == eval_and(sc, g, st, node, e, ops, k, d2),
        unknown_total(eval_and(sc, g, st, node, e, ops, k, d1).state) <= unknown_total(st),
    decreases d1, e, 0int, ops.len() - k, 0int,
{
    if !(k < 0 || k >= ops.len() || ops[k] >= e) {
        law_depth_is_immaterial(sc, g, st, node, ops[k], d1, d2);
        let s = eval(sc, g, st, node, ops[k], d1);
        if s.conforms() {
            lemma_and_depth(sc, g, s.state, node, e, ops, k + 1, d1, d2);
        }
    }
}

proof fn lemma_or_depth(
    sc: CompiledSchema,
    g: GraphView,
    st: Table,
    node: usize,
    e: usize,
    ops: Seq<usize>,
    k: int,
    acc: Seq<Reason>,
    d1: nat,
    d2: nat,
)
    requires
        unknown_total(st) <= d1,
        unknown_total(st) <= d2,
    ensures
        eval_or(sc, g, st, node, e, ops, k, acc, d1) == eval_or(
            sc,
            g,
            st,
            node,
            e,
            ops,
            k,
            acc,
            d2,
        ),
        unknown_total(eval_or(sc, g, st, node, e, ops, k, acc, d1).state) <= unknown_total(st),
    decreases d1, e, 0int, ops.len() - k, 0int,
{
    if !(k < 0 || k >= ops.len() || ops[k] >= e) {
        law_depth_is_immaterial(sc, g, st, node, ops[k], d1, d2);
        let s = eval(sc, g, st, node, ops[k], d1);
        if s.violates() {
            let r = s.result->Ok_0;
            lemma_or_depth(sc, g, s.state, node, e, ops, k + 1, acc + r, d1, d2);
        }
    }
}

proof fn lemma_arcs_depth(
    sc: CompiledSchema,
    g: GraphView,
    st: Table,
    node: usize,
    e: usize,
    arcs: Seq<usize>,
    i: int,
    counts: Seq<usize>,
    acc: Seq<Reason>,
    d1: nat,
    d2: nat,
)
    requires
        unknown_total(st) <= d1,
        unknown_total(st) <= d2,
    ensures
        eval_arcs(sc, g, st, node, e, arcs, i, counts, acc, d1) == eval_arcs(
            sc,
            g,
            st,
            node,
            e,
            arcs,
            i,
            counts,
            acc,
            d2,
        ),
        unknown_total(eval_arcs(sc, g, st, node, e, arcs, i, counts, acc, d1).state)
            <= unknown_total(st),
    decreases d1, e, 0int, arcs.len() - i, usize::MAX + 1,
{
    if e < sc.expr_seq().len() {
        if sc.expr_seq()[e as int] is Shape {
            if !(i < 0 || i >= arcs.len()) {
                lemma_slots_depth(
                    sc,
                    g,
                    st,
                    node,
                    e,
                    arcs,
                    i,
                    0,
                    counts,
                    acc,
                    false,
                    None,
                    d1,
                    d2,
                );
            }
        }
    }
}

proof fn lemma_slots_depth(
    sc: CompiledSchema,
    g: GraphView,
    st: Table,
    node: usize,
    e: usize,
    arcs: Seq<usize>,
    i: int,
    c: usize,
    counts: Seq<usize>,
    acc: Seq<Reason>,
    covered: bool,
    over: Option<usize>,
    d1: nat,
    d2: nat,
)
    requires
        unknown_total(st) <= d1,
        unknown_total(st) <= d2,
    ensures
        eval_slots(sc, g, st, node, e, arcs, i, c, counts, acc, covered, over, d1) == eval_slots(
            sc,
            g,
            st,
            node,
            e,
            arcs,
            i,
            c,
            counts,
            acc,
            covered,
            over,
            d2,
        ),
        unknown_total(
            eval_slots(sc, g, st, node, e, arcs, i, c, counts, acc, covered, over, d1).state,
        ) <= unknown_total(st),
    decreases d1, e, 0int, arcs.len() - i, usize::MAX - c,
{
    if !(e >= sc.expr_seq().len() || i < 0 || i >= arcs.len()) {
        match sc.expr_seq()[e as int] {
            ShapeExpr::Shape(body) => {
                let triple = arcs[i];
                let t = g.triple_seq()[triple as int];
                if c >= body.constraints@.len() || c >= usize::MAX {
                    lemma_arcs_depth(
                        sc,
                        g,
                        st,
                        node,
                        e,
                        arcs,
                        i + 1,
                        counts,
                        acc + body.leftover(node, e, triple, t.object, t.predicate@, covered, over),
                        d1,
                        d2,
                    );
                } else {
                    let tc = body.constraints@[c as int];
                    let next = (c + 1) as usize;
                    if tc.predicate@ != t.predicate@ || tc.value_expr >= e {
                        lemma_slots_depth(
                            sc,
                            g,
                            st,
                            node,
                            e,
                            arcs,
                            i,
                            next,
                            counts,
                            acc,
                            covered,
                            over,
                            d1,
                            d2,
                        );
                    } else {
                        law_depth_is_immaterial(sc, g, st, t.object, tc.value_expr, d1, d2);
                        let s = eval(sc, g, st, t.object, tc.value_expr, d1);
                        match s.result {
                            Err(_) => {},
                            Ok(r) => {
                                if r.len() > 0 {
                                    lemma_slots_depth(
                                        sc,
                                        g,
                                        s.state,
                                        node,
                                        e,
                                        arcs,
                                        i,
                                        next,
                                        counts,
                                        acc,
                                        true,
                                        over,
                                        d1,
                                        d2,
                                    );
                                } else if tc.max matches Some(m) && counts[c as int] >= m {
                                    lemma_slots_depth(
                                        sc,
                                        g,
                                        s.state,
                                        node,
                                        e,
                                        arcs,
                                        i,
                                        next,
                                        counts,
                                        acc,
                                        true,
                                        if over is Some {
                                            over
                                        } else {
                                            Some(c)
                                        },
                                        d1,
                                        d2,
                                    );
                                } else {
                                    lemma_arcs_depth(
                                        sc,
                                        g,
                                        s.state,
                                        node,
                                        e,
                                        arcs,
                                        i + 1,
                                        counts.update(c as int, (counts[c as int] + 1) as usize),
                                        acc,
                                        d1,
                                        d2,
                                    );
                                }
                            },
                        }
                    }
                }
            },
            _ => {},
        }
    }
}


} // verus!
