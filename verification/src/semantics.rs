//! What validation computes, as a mathematical function.
//!
//! The verdict of a node against an expression depends on the memo table:
//! a decided pair is not decided again, and a pair that is being decided
//! counts as conforming when it is met again further down. So evaluation
//! is a function from a table to a verdict and the table that results.
//!
//! `depth` bounds how many named shapes may be entered below one another.
//! A named shape is entered only through an unknown cell, which is then no
//! longer unknown, so a bound of the number of unknown cells is never
//! reached.

use crate::compiled::CompiledSchema;
use crate::graph::GraphView;
use crate::report::{EvaluationError, Reason, ReasonKind};
use crate::schema::{NodeConstraint, ShapeBody, ShapeExpr};
use crate::state::{with_cell, Status, Table};
use crate::numeric::{held, integer_value};
use crate::term::{Term, TermKind, TermView};
use vstd::prelude::*;

verus! {

/// A verdict together with the memo table that evaluation leaves. A list
/// of reasons without entry is a verdict of conformance.
pub struct Step {
    pub state: Table,
    pub result: Result<Seq<Reason>, EvaluationError>,
}

impl Step {
    /// Whether the step decided that the node conforms.
    pub open spec fn conforms(self) -> bool {
        self.result matches Ok(r) && r.len() == 0
    }

    /// Whether the step decided that the node violates.
    pub open spec fn violates(self) -> bool {
        self.result matches Ok(r) && r.len() > 0
    }
}

/// A step that leaves the table as it is.
pub open spec fn done(state: Table, reasons: Seq<Reason>) -> Step {
    Step { state, result: Ok(reasons) }
}

/// A step that fails.
pub open spec fn failed(state: Table, error: EvaluationError) -> Step {
    Step { state, result: Err(error) }
}

/// A violation at the node itself.
pub open spec fn at_node(node: usize, e: usize, kind: ReasonKind) -> Reason {
    Reason { focus: node, value: None, expr: e, kind }
}

/// A violation about a value of the node.
pub open spec fn at_value(node: usize, value: usize, e: usize, kind: ReasonKind) -> Reason {
    Reason { focus: node, value: Some(value), expr: e, kind }
}

/// The reason alone where `fails` holds, nothing otherwise.
pub open spec fn one_if(fails: bool, reason: Reason) -> Seq<Reason> {
    if fails {
        seq![reason]
    } else {
        Seq::empty()
    }
}

/// Whether the term is among the values.
pub open spec fn in_values(values: Seq<Term>, t: TermView) -> bool {
    exists|k: int| 0 <= k < values.len() && (#[trigger] values[k])@ == t
}

/// Whether the text is among the texts.
pub open spec fn in_texts(texts: Seq<String>, t: Seq<char>) -> bool {
    exists|k: int| 0 <= k < texts.len() && (#[trigger] texts[k])@ == t
}

impl NodeConstraint {
    pub open spec fn kind_fails(&self, t: TermView) -> bool {
        self.node_kind matches Some(k) && !k.admits(t.kind())
    }

    pub open spec fn datatype_fails(&self, t: TermView) -> bool {
        self.datatype matches Some(d) && t.datatype() != Some(d@)
    }

    /// A blank node has no text and fails every length facet.
    pub open spec fn too_short(&self, t: TermView) -> bool {
        self.min_length matches Some(n) && match t.text() {
            Some(s) => s.len() < n,
            None => true,
        }
    }

    pub open spec fn too_long(&self, t: TermView) -> bool {
        self.max_length matches Some(n) && match t.text() {
            Some(s) => s.len() > n,
            None => true,
        }
    }

    pub open spec fn not_listed(&self, t: TermView) -> bool {
        self.values matches Some(vs) && !in_values(vs@, t)
    }

    /// Whether the constraint has a range facet.
    pub open spec fn has_range(&self) -> bool {
        self.min_inclusive is Some || self.min_exclusive is Some || self.max_inclusive is Some
            || self.max_exclusive is Some
    }

    /// The integer that a range facet compares: that of a literal whose
    /// lexical form writes one.
    pub open spec fn number_of(t: TermView) -> Option<i128> {
        match t {
            TermView::Literal { lexical, .. } => held(integer_value(lexical)),
            _ => None,
        }
    }

    /// Whether the range facets cannot judge the term: it is a literal that
    /// writes no integer.
    pub open spec fn unjudged(&self, t: TermView) -> bool {
        self.has_range() && t.kind() == TermKind::Literal && Self::number_of(t) is None
    }

    /// The violations of the range facets by a value, `None` standing for
    /// a term that is no literal, which violates every range facet.
    pub open spec fn range_reasons(&self, v: Option<i128>, node: usize, e: usize) -> Seq<Reason> {
        one_if(
            self.min_inclusive matches Some(b) && !(v matches Some(x) && x >= b),
            at_node(node, e, ReasonKind::MinInclusive),
        ) + one_if(
            self.min_exclusive matches Some(b) && !(v matches Some(x) && x > b),
            at_node(node, e, ReasonKind::MinExclusive),
        ) + one_if(
            self.max_inclusive matches Some(b) && !(v matches Some(x) && x <= b),
            at_node(node, e, ReasonKind::MaxInclusive),
        ) + one_if(
            self.max_exclusive matches Some(b) && !(v matches Some(x) && x < b),
            at_node(node, e, ReasonKind::MaxExclusive),
        )
    }

    /// The violations of the constraint by a term, one for each facet that
    /// fails, in the order node kind, datatype, lengths, ranges, value set.
    pub open spec fn reasons(&self, t: TermView, node: usize, e: usize) -> Seq<Reason> {
        self.term_reasons(t, node, e) + self.range_reasons(Self::number_of(t), node, e) + one_if(
            self.not_listed(t),
            at_node(node, e, ReasonKind::ValueSet),
        )
    }

    /// The violations of the facets on the kind, the datatype and the
    /// length of a term.
    pub open spec fn term_reasons(&self, t: TermView, node: usize, e: usize) -> Seq<Reason> {
        one_if(self.kind_fails(t), at_node(node, e, ReasonKind::NodeKind)) + one_if(
            self.datatype_fails(t),
            at_node(node, e, ReasonKind::Datatype),
        ) + one_if(self.too_short(t), at_node(node, e, ReasonKind::MinLength)) + one_if(
            self.too_long(t),
            at_node(node, e, ReasonKind::MaxLength),
        )
    }

    /// The verdict of the constraint on a term: its violations, or the
    /// error that a range facet cannot judge the term.
    pub open spec fn outcome(&self, t: TermView, node: usize, e: usize) -> Result<
        Seq<Reason>,
        EvaluationError,
    > {
        if self.unjudged(t) {
            Err(EvaluationError::Unsupported { node })
        } else {
            Ok(self.reasons(t, node, e))
        }
    }
}

/// `len` counters at zero.
pub open spec fn zeros(len: nat) -> Seq<usize> {
    Seq::new(len, |k: int| 0usize)
}

impl ShapeBody {
    /// What an arc amounts to that no constraint took: nothing when its
    /// predicate is declared extra; else a violation when a constraint was
    /// full, when its predicate is constrained, or when the shape is closed.
    pub open spec fn leftover(
        &self,
        node: usize,
        e: usize,
        triple: usize,
        value: usize,
        predicate: Seq<char>,
        covered: bool,
        over: Option<usize>,
    ) -> Seq<Reason> {
        if in_texts(self.extra@, predicate) {
            Seq::empty()
        } else if over is Some {
            seq![
                at_value(
                    node,
                    value,
                    e,
                    ReasonKind::MaxExceeded { triple, constraint: over.unwrap() },
                ),
            ]
        } else if covered {
            seq![at_value(node, value, e, ReasonKind::Unmatched { triple })]
        } else if self.closed {
            seq![at_value(node, value, e, ReasonKind::Closed { triple })]
        } else {
            Seq::empty()
        }
    }

    /// A violation for each constraint from `c` on that has fewer values
    /// than its minimum.
    pub open spec fn unmet(&self, counts: Seq<usize>, node: usize, e: usize, c: int) -> Seq<Reason>
        decreases self.constraints@.len() - c,
    {
        if c < 0 || c >= self.constraints@.len() {
            Seq::empty()
        } else {
            one_if(
                counts[c] < self.constraints@[c].min,
                at_node(node, e, ReasonKind::MinUnmet { constraint: c as usize }),
            ) + self.unmet(counts, node, e, c + 1)
        }
    }
}

/// The verdict of the node against the expression at `e`, and the table
/// after it.
pub open spec fn eval(
    sc: CompiledSchema,
    g: GraphView,
    st: Table,
    node: usize,
    e: usize,
    depth: nat,
) -> Step
    decreases depth, e, 1int, 0int, 0int,
{
    if e >= sc.expr_seq().len() {
        done(st, Seq::empty())
    } else {
        match sc.expr_seq()[e as int] {
            ShapeExpr::Empty => done(st, Seq::empty()),
            ShapeExpr::NodeConstraint(nc) => Step {
                state: st,
                result: nc.outcome(g.term_seq()[node as int], node, e),
            },
            ShapeExpr::ShapeExternal => match g.external_seq()[node as int] {
                Some(true) => done(st, Seq::empty()),
                Some(false) => done(st, seq![at_node(node, e, ReasonKind::External)]),
                None => failed(st, EvaluationError::ExternalUnavailable { node }),
            },
            ShapeExpr::ShapeNot { expr } => {
                if expr >= e {
                    done(st, Seq::empty())
                } else {
                    let s = eval(sc, g, st, node, expr, depth);
                    match s.result {
                        Err(_) => s,
                        Ok(r) => done(
                            s.state,
                            one_if(r.len() == 0, at_node(node, e, ReasonKind::Negation)),
                        ),
                    }
                }
            },
            ShapeExpr::ShapeAnd { exprs } => eval_and(sc, g, st, node, e, exprs@, 0, depth),
            ShapeExpr::ShapeOr { exprs } => eval_or(
                sc,
                g,
                st,
                node,
                e,
                exprs@,
                0,
                Seq::empty(),
                depth,
            ),
            ShapeExpr::Ref { idx } => eval_named(sc, g, st, node, e, idx.index, depth),
            ShapeExpr::Shape(body) => {
                if !g.readable_seq()[node as int] {
                    failed(st, EvaluationError::Unreadable { node })
                } else {
                    eval_arcs(
                        sc,
                        g,
                        st,
                        node,
                        e,
                        g.neighbours(node as int),
                        0,
                        zeros(body.constraints@.len()),
                        Seq::empty(),
                        depth,
                    )
                }
            },
        }
    }
}

/// The verdict of the node against the named shape with handle `shape`,
/// and the table after it. A decided pair keeps its decision and a pending
/// pair counts as conforming, both without a look at the graph. An unknown
/// pair is pending while the shape's expression is evaluated and then
/// holds the decision; after an error it is unknown again. `at` is the
/// expression that the violation is reported for.
pub open spec fn eval_named(
    sc: CompiledSchema,
    g: GraphView,
    st: Table,
    node: usize,
    at: usize,
    shape: usize,
    depth: nat,
) -> Step
    decreases depth, at, 0int, 0int, 0int,
{
    if node >= st.len() || shape >= st[node as int].len() || shape >= sc.root_seq().len() {
        done(st, Seq::empty())
    } else {
        let refused = seq![at_node(node, at, ReasonKind::ShapeRef { shape })];
        match st[node as int][shape as int] {
            Status::Conforms => done(st, Seq::empty()),
            Status::Pending => done(st, Seq::empty()),
            Status::Violates => done(st, refused),
            Status::Unknown => {
                if depth == 0 {
                    done(st, Seq::empty())
                } else {
                    let s = eval(
                        sc,
                        g,
                        with_cell(st, node as int, shape as int, Status::Pending),
                        node,
                        sc.root_seq()[shape as int],
                        (depth - 1) as nat,
                    );
                    match s.result {
                        Err(x) => failed(
                            with_cell(s.state, node as int, shape as int, Status::Unknown),
                            x,
                        ),
                        Ok(r) => if r.len() == 0 {
                            done(
                                with_cell(s.state, node as int, shape as int, Status::Conforms),
                                Seq::empty(),
                            )
                        } else {
                            done(
                                with_cell(s.state, node as int, shape as int, Status::Violates),
                                refused,
                            )
                        },
                    }
                }
            },
        }
    }
}

/// The operands of a conjunction from `k` on: the reasons of the first
/// operand that is violated, none when all conform.
pub open spec fn eval_and(
    sc: CompiledSchema,
    g: GraphView,
    st: Table,
    node: usize,
    e: usize,
    ops: Seq<usize>,
    k: int,
    depth: nat,
) -> Step
    decreases depth, e, 0int, ops.len() - k, 0int,
{
    if k < 0 || k >= ops.len() || ops[k] >= e {
        done(st, Seq::empty())
    } else {
        let s = eval(sc, g, st, node, ops[k], depth);
        match s.result {
            Err(_) => s,
            Ok(r) => if r.len() > 0 {
                s
            } else {
                eval_and(sc, g, s.state, node, e, ops, k + 1, depth)
            },
        }
    }
}

/// The operands of a disjunction from `k` on, `acc` holding the reasons of
/// the operands before: no reason as soon as one operand conforms, else a
/// reason of its own followed by the reasons of all operands.
pub open spec fn eval_or(
    sc: CompiledSchema,
    g: GraphView,
    st: Table,
    node: usize,
    e: usize,
    ops: Seq<usize>,
    k: int,
    acc: Seq<Reason>,
    depth: nat,
) -> Step
    decreases depth, e, 0int, ops.len() - k, 0int,
{
    if k < 0 || k >= ops.len() || ops[k] >= e {
        done(st, seq![at_node(node, e, ReasonKind::NoAlternative)] + acc)
    } else {
        let s = eval(sc, g, st, node, ops[k], depth);
        match s.result {
            Err(_) => s,
            Ok(r) => if r.len() == 0 {
                s
            } else {
                eval_or(sc, g, s.state, node, e, ops, k + 1, acc + r, depth)
            },
        }
    }
}

/// The arcs of a node from the `i`-th on against the triple constraints of
/// the shape at `e`. `counts` holds how many values each constraint has
/// taken, `acc` the violations so far. After the last arc the constraints
/// that did not reach their minimum are added.
pub open spec fn eval_arcs(
    sc: CompiledSchema,
    g: GraphView,
    st: Table,
    node: usize,
    e: usize,
    arcs: Seq<usize>,
    i: int,
    counts: Seq<usize>,
    acc: Seq<Reason>,
    depth: nat,
) -> Step
    decreases depth, e, 0int, arcs.len() - i, usize::MAX + 1,
{
    if e >= sc.expr_seq().len() {
        done(st, acc)
    } else {
        match sc.expr_seq()[e as int] {
            ShapeExpr::Shape(body) => {
                if i < 0 || i >= arcs.len() {
                    done(st, acc + body.unmet(counts, node, e, 0))
                } else {
                    eval_slots(sc, g, st, node, e, arcs, i, 0, counts, acc, false, None, depth)
                }
            },
            _ => done(st, acc),
        }
    }
}

/// The `i`-th arc against the constraints from `c` on, in declaration
/// order. A constraint takes the arc when the predicate is its own, the
/// value conforms to its value expression and it is not full. `covered`
/// says whether an earlier constraint had the predicate, `over` names the
/// first constraint that the value fitted and that was full.
pub open spec fn eval_slots(
    sc: CompiledSchema,
    g: GraphView,
    st: Table,
    node: usize,
    e: usize,
    arcs: Seq<usize>,
    i: int,
    c: usize,
    counts: Seq<usize>,
    acc: Seq<Reason>,
    covered: bool,
    over: Option<usize>,
    depth: nat,
) -> Step
    decreases depth, e, 0int, arcs.len() - i, usize::MAX - c,
{
    if e >= sc.expr_seq().len() || i < 0 || i >= arcs.len() {
        done(st, acc)
    } else {
        match sc.expr_seq()[e as int] {
            ShapeExpr::Shape(body) => {
                let triple = arcs[i];
                let t = g.triple_seq()[triple as int];
                if c >= body.constraints@.len() || c >= usize::MAX {
                    eval_arcs(
                        sc,
                        g,
                        st,
                        node,
                        e,
                        arcs,
                        i + 1,
                        counts,
                        acc + body.leftover(node, e, triple, t.object, t.predicate@, covered, over),
                        depth,
                    )
                } else {
                    let tc = body.constraints@[c as int];
                    if tc.predicate@ != t.predicate@ || tc.value_expr >= e {
                        eval_slots(
                            sc,
                            g,
                            st,
                            node,
                            e,
                            arcs,
                            i,
                            (c + 1) as usize,
                            counts,
                            acc,
                            covered,
                            over,
                            depth,
                        )
                    } else {
                        let s = eval(sc, g, st, t.object, tc.value_expr, depth);
                        match s.result {
                            Err(_) => s,
                            Ok(r) => if r.len() > 0 {
                                eval_slots(
                                    sc,
                                    g,
                                    s.state,
                                    node,
                                    e,
                                    arcs,
                                    i,
                                    (c + 1) as usize,
                                    counts,
                                    acc,
                                    true,
                                    over,
                                    depth,
                                )
                            } else if tc.max matches Some(m) && counts[c as int] >= m {
                                eval_slots(
                                    sc,
                                    g,
                                    s.state,
                                    node,
                                    e,
                                    arcs,
                                    i,
                                    (c + 1) as usize,
                                    counts,
                                    acc,
                                    true,
                                    if over is Some {
                                        over
                                    } else {
                                        Some(c)
                                    },
                                    depth,
                                )
                            } else {
                                eval_arcs(
                                    sc,
                                    g,
                                    s.state,
                                    node,
                                    e,
                                    arcs,
                                    i + 1,
                                    counts.update(c as int, (counts[c as int] + 1) as usize),
                                    acc,
                                    depth,
                                )
                            },
                        }
                    }
                }
            },
            _ => done(st, acc),
        }
    }
}

} // verus!
