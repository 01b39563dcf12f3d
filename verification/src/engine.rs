//! The evaluator: executable validation, proved to compute what
//! [`crate::semantics::eval`] says.

use crate::compiled::CompiledSchema;
use crate::graph::{lemma_arcs_in_range, Graph};
use crate::label::ShapeLabelIdx;
use crate::numeric::parse_integer;
use crate::report::{EvaluationError, Reason, ReasonKind};
use crate::schema::{NodeConstraint, ShapeBody, ShapeExpr};
use crate::semantics::{
    at_node, eval, eval_and, eval_arcs, eval_named, eval_or, eval_slots, in_texts, in_values,
    one_if, zeros,
};
use crate::state::{has_width, lemma_with_cell, unknown_total, Status, Table, ValidationState};
use crate::term::{same_text, Term};
use vstd::prelude::*;

verus! {

/// The mathematical value of an executable result.
pub open spec fn result_view(r: Result<Vec<Reason>, EvaluationError>) -> Result<
    Seq<Reason>,
    EvaluationError,
> {
    match r {
        Ok(v) => Ok(v@),
        Err(x) => Err(x),
    }
}

/// The table fits the schema and the graph: a row for each node at least,
/// a cell for each named shape.
pub open spec fn ready(sc: CompiledSchema, g: Graph, st: Table) -> bool {
    &&& sc.wf()
    &&& g.wf()
    &&& g.term_seq().len() <= st.len()
    &&& has_width(st, sc.label_seq().len() as int)
}

/// Whether the term is among the values.
pub fn contains_term(values: &Vec<Term>, term: &Term) -> (b: bool)
    ensures
        b == in_values(values@, term@),
{
    let mut k: usize = 0;
    while k < values.len()
        invariant
            k <= values.len(),
            forall|j: int| 0 <= j < k ==> (#[trigger] values@[j])@ != term@,
        decreases values.len() - k,
    {
        if values[k].same(term) {
            return true;
        }
        k += 1;
    }
    false
}

/// Whether the text is among the texts.
pub fn contains_text(texts: &Vec<String>, text: &String) -> (b: bool)
    ensures
        b == in_texts(texts@, text@),
{
    let mut k: usize = 0;
    while k < texts.len()
        invariant
            k <= texts.len(),
            forall|j: int| 0 <= j < k ==> (#[trigger] texts@[j])@ != text@,
        decreases texts.len() - k,
    {
        if same_text(&texts[k], text) {
            return true;
        }
        k += 1;
    }
    false
}

impl NodeConstraint {
    /// The integer that a range facet compares.
    fn number(term: &Term) -> (v: Option<i128>)
        ensures
            v == Self::number_of(term@),
    {
        match term {
            Term::Literal { lexical, .. } => parse_integer(lexical.as_str()),
            _ => None,
        }
    }

    /// The violations of the range facets by a value.
    fn check_range(&self, v: Option<i128>, node: usize, e: usize) -> (out: Vec<Reason>)
        ensures
            out@ == self.range_reasons(v, node, e),
    {
        let mut out: Vec<Reason> = Vec::new();
        let below = match self.min_inclusive {
            Some(b) => match v {
                Some(x) => !(x >= b),
                None => true,
            },
            None => false,
        };
        if below {
            out.push(Reason { focus: node, value: None, expr: e, kind: ReasonKind::MinInclusive });
        }
        let not_above = match self.min_exclusive {
            Some(b) => match v {
                Some(x) => !(x > b),
                None => true,
            },
            None => false,
        };
        if not_above {
            out.push(Reason { focus: node, value: None, expr: e, kind: ReasonKind::MinExclusive });
        }
        let above = match self.max_inclusive {
            Some(b) => match v {
                Some(x) => !(x <= b),
                None => true,
            },
            None => false,
        };
        if above {
            out.push(Reason { focus: node, value: None, expr: e, kind: ReasonKind::MaxInclusive });
        }
        let not_below = match self.max_exclusive {
            Some(b) => match v {
                Some(x) => !(x < b),
                None => true,
            },
            None => false,
        };
        if not_below {
            out.push(Reason { focus: node, value: None, expr: e, kind: ReasonKind::MaxExclusive });
        }
        assert(out@ =~= self.range_reasons(v, node, e));
        out
    }

    /// The violations of the facets on the kind, the datatype and the
    /// length of a term.
    fn check_term(&self, term: &Term, node: usize, e: usize) -> (v: Vec<Reason>)
        ensures
            v@ == self.term_reasons(term@, node, e),
    {
        let mut v: Vec<Reason> = Vec::new();
        let kind_fails = match self.node_kind {
            Some(k) => !k.accepts(term.kind()),
            None => false,
        };
        if kind_fails {
            v.push(Reason { focus: node, value: None, expr: e, kind: ReasonKind::NodeKind });
        }
        let datatype_fails = match &self.datatype {
            Some(d) => match term.datatype() {
                Some(td) => !same_text(td, d),
                None => true,
            },
            None => false,
        };
        if datatype_fails {
            v.push(Reason { focus: node, value: None, expr: e, kind: ReasonKind::Datatype });
        }
        let len = term.text_len();
        let too_short = match self.min_length {
            Some(n) => match len {
                Some(l) => l < n,
                None => true,
            },
            None => false,
        };
        if too_short {
            v.push(Reason { focus: node, value: None, expr: e, kind: ReasonKind::MinLength });
        }
        let too_long = match self.max_length {
            Some(n) => match len {
                Some(l) => l > n,
                None => true,
            },
            None => false,
        };
        if too_long {
            v.push(Reason { focus: node, value: None, expr: e, kind: ReasonKind::MaxLength });
        }
        assert(v@ =~= self.term_reasons(term@, node, e));
        v
    }

    /// The verdict of the constraint on a term.
    pub fn check(&self, term: &Term, node: usize, e: usize) -> (r: Result<
        Vec<Reason>,
        EvaluationError,
    >)
        ensures
            result_view(r) == self.outcome(term@, node, e),
    {
        let has_range = self.min_inclusive.is_some() || self.min_exclusive.is_some()
            || self.max_inclusive.is_some() || self.max_exclusive.is_some();
        let number = Self::number(term);
        if has_range && term.is_literal() && number.is_none() {
            return Err(EvaluationError::Unsupported { node });
        }
        let mut v = self.check_term(term, node, e);
        let mut ranges = self.check_range(number, node, e);
        v.append(&mut ranges);
        let not_listed = match &self.values {
            Some(vs) => !contains_term(vs, term),
            None => false,
        };
        if not_listed {
            v.push(Reason { focus: node, value: None, expr: e, kind: ReasonKind::ValueSet });
        }
        assert(v@ =~= self.reasons(term@, node, e));
        Ok(v)
    }
}

impl ShapeBody {
    /// A violation for each constraint that has fewer values than its
    /// minimum.
    pub fn check_minimums(&self, counts: &Vec<usize>, node: usize, e: usize) -> (v: Vec<Reason>)
        requires
            counts@.len() == self.constraints@.len(),
        ensures
            v@ == self.unmet(counts@, node, e, 0),
    {
        let mut v: Vec<Reason> = Vec::new();
        let mut c: usize = 0;
        while c < self.constraints.len()
            invariant
                c <= self.constraints.len(),
                counts@.len() == self.constraints@.len(),
                v@ + self.unmet(counts@, node, e, c as int) == self.unmet(counts@, node, e, 0),
            decreases self.constraints.len() - c,
        {
            let ghost before = v@;
            let ghost rest = self.unmet(counts@, node, e, c + 1);
            if counts[c] < self.constraints[c].min {
                v.push(
                    Reason {
                        focus: node,
                        value: None,
                        expr: e,
                        kind: ReasonKind::MinUnmet { constraint: c },
                    },
                );
            }
            assert(v@ + rest =~= before + self.unmet(counts@, node, e, c as int));
            c += 1;
        }
        assert(v@ =~= v@ + self.unmet(counts@, node, e, c as int));
        v
    }
}

/// Validates a node against the expression at `e`, reading and filling
/// the memo table.
pub(crate) fn check(
    sc: &CompiledSchema,
    g: &Graph,
    state: &mut ValidationState,
    node: usize,
    e: usize,
    Ghost(depth): Ghost<nat>,
) -> (r: Result<Vec<Reason>, EvaluationError>)
    requires
        ready(*sc, *g, old(state)@),
        node < g.term_seq().len(),
        e < sc.expr_seq().len(),
        unknown_total(old(state)@) <= depth,
    ensures
        final(state)@ == eval(*sc, g@, old(state)@, node, e, depth).state,
        result_view(r) == eval(*sc, g@, old(state)@, node, e, depth).result,
        ready(*sc, *g, final(state)@),
        unknown_total(final(state)@) <= unknown_total(old(state)@),
    decreases depth, e, 1int,
{
    match sc.expr(e) {
        ShapeExpr::Empty => Ok(Vec::new()),
        ShapeExpr::NodeConstraint(nc) => nc.check(g.term(node), node, e),
        ShapeExpr::ShapeExternal => match g.external_answer(node) {
            Some(true) => Ok(Vec::new()),
            Some(false) => {
                let mut v: Vec<Reason> = Vec::new();
                v.push(Reason { focus: node, value: None, expr: e, kind: ReasonKind::External });
                assert(v@ =~= seq![at_node(node, e, ReasonKind::External)]);
                Ok(v)
            },
            None => Err(EvaluationError::ExternalUnavailable { node }),
        },
        ShapeExpr::ShapeNot { expr } => {
            match check(sc, g, state, node, *expr, Ghost(depth)) {
                Err(x) => Err(x),
                Ok(r) => {
                    let mut v: Vec<Reason> = Vec::new();
                    if r.len() == 0 {
                        v.push(
                            Reason { focus: node, value: None, expr: e, kind: ReasonKind::Negation },
                        );
                    }
                    assert(v@ =~= one_if(r@.len() == 0, at_node(node, e, ReasonKind::Negation)));
                    Ok(v)
                },
            }
        },
        ShapeExpr::ShapeAnd { exprs } => check_and(sc, g, state, node, e, exprs, Ghost(depth)),
        ShapeExpr::ShapeOr { exprs } => check_or(sc, g, state, node, e, exprs, Ghost(depth)),
        ShapeExpr::Ref { idx } => check_named(sc, g, state, node, e, idx.index, Ghost(depth)),
        ShapeExpr::Shape(body) => {
            match g.neighs(node) {
                None => Err(EvaluationError::Unreadable { node }),
                Some(arcs) => check_arcs(sc, g, state, node, e, body, &arcs, Ghost(depth)),
            }
        },
    }
}

/// Validates a node against a named shape, reading and filling the memo
/// table.
pub(crate) fn check_named(
    sc: &CompiledSchema,
    g: &Graph,
    state: &mut ValidationState,
    node: usize,
    at: usize,
    shape: usize,
    Ghost(depth): Ghost<nat>,
) -> (r: Result<Vec<Reason>, EvaluationError>)
    requires
        ready(*sc, *g, old(state)@),
        node < g.term_seq().len(),
        shape < sc.label_seq().len(),
        unknown_total(old(state)@) <= depth,
    ensures
        final(state)@ == eval_named(*sc, g@, old(state)@, node, at, shape, depth).state,
        result_view(r) == eval_named(*sc, g@, old(state)@, node, at, shape, depth).result,
        ready(*sc, *g, final(state)@),
        unknown_total(final(state)@) <= unknown_total(old(state)@),
        r matches Ok(v) ==> old(state)@[node as int][shape as int] == Status::Pending
            || final(state)@[node as int][shape as int] == (if v@.len() == 0 {
            Status::Conforms
        } else {
            Status::Violates
        }),
    decreases depth, at, 0int,
{
    let mut refused: Vec<Reason> = Vec::new();
    refused.push(
        Reason { focus: node, value: None, expr: at, kind: ReasonKind::ShapeRef { shape } },
    );
    assert(refused@ =~= seq![at_node(node, at, ReasonKind::ShapeRef { shape })]);
    match state.get(node, shape) {
        Status::Conforms => Ok(Vec::new()),
        Status::Pending => Ok(Vec::new()),
        Status::Violates => Ok(refused),
        Status::Unknown => {
            proof {
                lemma_with_cell(old(state)@, node as int, shape as int, Status::Pending);
            }
            state.set(node, shape, Status::Pending);
            let root = sc.root(ShapeLabelIdx { index: shape });
            let r = check(sc, g, state, node, root, Ghost((depth - 1) as nat));
            match r {
                Err(x) => {
                    proof {
                        lemma_with_cell(state@, node as int, shape as int, Status::Unknown);
                    }
                    state.set(node, shape, Status::Unknown);
                    Err(x)
                },
                Ok(v) => {
                    if v.len() == 0 {
                        proof {
                            lemma_with_cell(state@, node as int, shape as int, Status::Conforms);
                        }
                        state.set(node, shape, Status::Conforms);
                        assert(v@ =~= Seq::<Reason>::empty());
                        Ok(v)
                    } else {
                        proof {
                            lemma_with_cell(state@, node as int, shape as int, Status::Violates);
                        }
                        state.set(node, shape, Status::Violates);
                        Ok(refused)
                    }
                },
            }
        },
    }
}

/// Validates a node against the operands of a conjunction.
fn check_and(
    sc: &CompiledSchema,
    g: &Graph,
    state: &mut ValidationState,
    node: usize,
    e: usize,
    ops: &Vec<usize>,
    Ghost(depth): Ghost<nat>,
) -> (r: Result<Vec<Reason>, EvaluationError>)
    requires
        ready(*sc, *g, old(state)@),
        node < g.term_seq().len(),
        e < sc.expr_seq().len(),
        forall|k: int| 0 <= k < ops@.len() ==> (#[trigger] ops@[k]) < e,
        unknown_total(old(state)@) <= depth,
    ensures
        final(state)@ == eval_and(*sc, g@, old(state)@, node, e, ops@, 0, depth).state,
        result_view(r) == eval_and(*sc, g@, old(state)@, node, e, ops@, 0, depth).result,
        ready(*sc, *g, final(state)@),
        unknown_total(final(state)@) <= unknown_total(old(state)@),
    decreases depth, e, 0int,
{
    let ghost target = eval_and(*sc, g@, old(state)@, node, e, ops@, 0, depth);
    let mut k: usize = 0;
    while k < ops.len()
        invariant
            k <= ops.len(),
            ready(*sc, *g, state@),
            node < g.term_seq().len(),
            e < sc.expr_seq().len(),
            forall|j: int| 0 <= j < ops@.len() ==> (#[trigger] ops@[j]) < e,
            unknown_total(state@) <= unknown_total(old(state)@),
            unknown_total(old(state)@) <= depth,
            target == eval_and(*sc, g@, old(state)@, node, e, ops@, 0, depth),
            eval_and(*sc, g@, state@, node, e, ops@, k as int, depth) == target,
        decreases ops.len() - k,
    {
        let ghost st0 = state@;
        let ghost s = eval(*sc, g@, st0, node, ops@[k as int], depth);
        assert(eval_and(*sc, g@, st0, node, e, ops@, k as int, depth) == match s.result {
            Err(_) => s,
            Ok(r) => if r.len() > 0 {
                s
            } else {
                eval_and(*sc, g@, s.state, node, e, ops@, k + 1, depth)
            },
        });
        let r = check(sc, g, state, node, ops[k], Ghost(depth));
        match r {
            Err(x) => {
                return Err(x);
            },
            Ok(v) => {
                if v.len() > 0 {
                    return Ok(v);
                }
            },
        }
        k += 1;
    }
    Ok(Vec::new())
}

/// Validates a node against the operands of a disjunction.
fn check_or(
    sc: &CompiledSchema,
    g: &Graph,
    state: &mut ValidationState,
    node: usize,
    e: usize,
    ops: &Vec<usize>,
    Ghost(depth): Ghost<nat>,
) -> (r: Result<Vec<Reason>, EvaluationError>)
    requires
        ready(*sc, *g, old(state)@),
        node < g.term_seq().len(),
        e < sc.expr_seq().len(),
        forall|k: int| 0 <= k < ops@.len() ==> (#[trigger] ops@[k]) < e,
        unknown_total(old(state)@) <= depth,
    ensures
        final(state)@ == eval_or(*sc, g@, old(state)@, node, e, ops@, 0, Seq::empty(), depth).state,
        result_view(r) == eval_or(
            *sc,
            g@,
            old(state)@,
            node,
            e,
            ops@,
            0,
            Seq::empty(),
            depth,
        ).result,
        ready(*sc, *g, final(state)@),
        unknown_total(final(state)@) <= unknown_total(old(state)@),
    decreases depth, e, 0int,
{
    let ghost target = eval_or(*sc, g@, old(state)@, node, e, ops@, 0, Seq::empty(), depth);
    let mut acc: Vec<Reason> = Vec::new();
    let mut k: usize = 0;
    while k < ops.len()
        invariant
            k <= ops.len(),
            ready(*sc, *g, state@),
            node < g.term_seq().len(),
            e < sc.expr_seq().len(),
            forall|j: int| 0 <= j < ops@.len() ==> (#[trigger] ops@[j]) < e,
            unknown_total(state@) <= unknown_total(old(state)@),
            unknown_total(old(state)@) <= depth,
            target == eval_or(*sc, g@, old(state)@, node, e, ops@, 0, Seq::empty(), depth),
            eval_or(*sc, g@, state@, node, e, ops@, k as int, acc@, depth) == target,
        decreases ops.len() - k,
    {
        let ghost st0 = state@;
        let ghost s = eval(*sc, g@, st0, node, ops@[k as int], depth);
        assert(eval_or(*sc, g@, st0, node, e, ops@, k as int, acc@, depth) == match s.result {
            Err(_) => s,
            Ok(r) => if r.len() == 0 {
                s
            } else {
                eval_or(*sc, g@, s.state, node, e, ops@, k + 1, acc@ + r, depth)
            },
        });
        let r = check(sc, g, state, node, ops[k], Ghost(depth));
        match r {
            Err(x) => {
                return Err(x);
            },
            Ok(v) => {
                if v.len() == 0 {
                    return Ok(v);
                }
                let mut v = v;
                acc.append(&mut v);
            },
        }
        k += 1;
    }
    let mut out: Vec<Reason> = Vec::new();
    out.push(Reason { focus: node, value: None, expr: e, kind: ReasonKind::NoAlternative });
    out.append(&mut acc);
    Ok(out)
}

/// Validates the arcs of a node against the triple constraints of a shape.
fn check_arcs(
    sc: &CompiledSchema,
    g: &Graph,
    state: &mut ValidationState,
    node: usize,
    e: usize,
    body: &ShapeBody,
    arcs: &Vec<usize>,
    Ghost(depth): Ghost<nat>,
) -> (r: Result<Vec<Reason>, EvaluationError>)
    requires
        ready(*sc, *g, old(state)@),
        node < g.term_seq().len(),
        e < sc.expr_seq().len(),
        sc.expr_seq()[e as int] == ShapeExpr::Shape(*body),
        arcs@ == g.neighbours(node as int),
        unknown_total(old(state)@) <= depth,
    ensures
        final(state)@ == eval_arcs(
            *sc,
            g@,
            old(state)@,
            node,
            e,
            arcs@,
            0,
            zeros(body.constraints@.len()),
            Seq::empty(),
            depth,
        ).state,
        result_view(r) == eval_arcs(
            *sc,
            g@,
            old(state)@,
            node,
            e,
            arcs@,
            0,
            zeros(body.constraints@.len()),
            Seq::empty(),
            depth,
        ).result,
        ready(*sc, *g, final(state)@),
        unknown_total(final(state)@) <= unknown_total(old(state)@),
    decreases depth, e, 0int,
{
    let ghost target = eval_arcs(
        *sc,
        g@,
        old(state)@,
        node,
        e,
        arcs@,
        0,
        zeros(body.constraints@.len()),
        Seq::empty(),
        depth,
    );
    let n = body.constraints.len();
    let triples = g.triple_count();
    proof {
        lemma_arcs_in_range(g.triple_seq(), node as int, g.triple_seq().len() as int);
    }
    let mut counts: Vec<usize> = Vec::new();
    while counts.len() < n
        invariant
            counts@.len() <= n,
            forall|j: int| 0 <= j < counts@.len() ==> counts@[j] == 0,
        decreases n - counts.len(),
    {
        counts.push(0);
    }
    assert(counts@ =~= zeros(n as nat));
    let mut acc: Vec<Reason> = Vec::new();
    let mut i: usize = 0;
    while i < arcs.len()
        invariant
            i <= arcs.len(),
            n == body.constraints@.len(),
            counts@.len() == n,
            forall|j: int| 0 <= j < n ==> (#[trigger] counts@[j]) <= i,
            ready(*sc, *g, state@),
            node < g.term_seq().len(),
            e < sc.expr_seq().len(),
            sc.expr_seq()[e as int] == ShapeExpr::Shape(*body),
            arcs@ == g.neighbours(node as int),
            triples == g.triple_seq().len(),
            forall|j: int| 0 <= j < arcs@.len() ==> (#[trigger] arcs@[j]) < triples,
            unknown_total(state@) <= unknown_total(old(state)@),
            unknown_total(old(state)@) <= depth,
            target == eval_arcs(
                *sc,
                g@,
                old(state)@,
                node,
                e,
                arcs@,
                0,
                zeros(body.constraints@.len()),
                Seq::empty(),
                depth,
            ),
            eval_arcs(*sc, g@, state@, node, e, arcs@, i as int, counts@, acc@, depth) == target,
        decreases arcs.len() - i,
    {
        let triple = arcs[i];
        let t = g.triple(triple);
        let mut covered = false;
        let mut over: Option<usize> = None;
        let mut taken = false;
        let mut c: usize = 0;
        while c < n && !taken
            invariant
                c <= n,
                i < arcs.len(),
                triple == arcs@[i as int],
                triple < g.triple_seq().len(),
                *t == g.triple_seq()[triple as int],
                n == body.constraints@.len(),
                counts@.len() == n,
                forall|j: int|
                    0 <= j < n ==> (#[trigger] counts@[j]) <= if taken {
                        i + 1
                    } else {
                        i as int
                    },
                ready(*sc, *g, state@),
                node < g.term_seq().len(),
                e < sc.expr_seq().len(),
                sc.expr_seq()[e as int] == ShapeExpr::Shape(*body),
                unknown_total(state@) <= unknown_total(old(state)@),
                unknown_total(old(state)@) <= depth,
                target == eval_arcs(
                    *sc,
                    g@,
                    old(state)@,
                    node,
                    e,
                    arcs@,
                    0,
                    zeros(body.constraints@.len()),
                    Seq::empty(),
                    depth,
                ),
                !taken ==> eval_slots(
                    *sc,
                    g@,
                    state@,
                    node,
                    e,
                    arcs@,
                    i as int,
                    c,
                    counts@,
                    acc@,
                    covered,
                    over,
                    depth,
                ) == target,
                taken ==> eval_arcs(
                    *sc,
                    g@,
                    state@,
                    node,
                    e,
                    arcs@,
                    i + 1,
                    counts@,
                    acc@,
                    depth,
                ) == target,
            decreases n - c, if taken { 0int } else { 1int },
        {
            let tc = &body.constraints[c];
            proof {
                assert(sc.expr_seq()[e as int].ok_at(e as int, sc.label_seq().len() as int));
                assert(body.constraints@[c as int].ok_at(e as int));
            }
            let ghost st0 = state@;
            proof {
                assert(g.triple_seq()[triple as int].object < g.term_seq().len());
                let s = eval(*sc, g@, st0, t.object, tc.value_expr, depth);
                let next = (c + 1) as usize;
                assert(eval_slots(
                    *sc,
                    g@,
                    st0,
                    node,
                    e,
                    arcs@,
                    i as int,
                    c,
                    counts@,
                    acc@,
                    covered,
                    over,
                    depth,
                ) == if tc.predicate@ != t.predicate@ {
                    eval_slots(
                        *sc,
                        g@,
                        st0,
                        node,
                        e,
                        arcs@,
                        i as int,
                        next,
                        counts@,
                        acc@,
                        covered,
                        over,
                        depth,
                    )
                } else {
                    match s.result {
                        Err(_) => s,
                        Ok(r) => if r.len() > 0 {
                            eval_slots(
                                *sc,
                                g@,
                                s.state,
                                node,
                                e,
                                arcs@,
                                i as int,
                                next,
                                counts@,
                                acc@,
                                true,
                                over,
                                depth,
                            )
                        } else if tc.max matches Some(m) && counts@[c as int] >= m {
                            eval_slots(
                                *sc,
                                g@,
                                s.state,
                                node,
                                e,
                                arcs@,
                                i as int,
                                next,
                                counts@,
                                acc@,
                                true,
                                if over is Some {
                                    over
                                } else {
                                    Some(c)
                                },
                                depth,
                            )
                        } else {
                            eval_arcs(
                                *sc,
                                g@,
                                s.state,
                                node,
                                e,
                                arcs@,
                                i + 1,
                                counts@.update(c as int, (counts@[c as int] + 1) as usize),
                                acc@,
                                depth,
                            )
                        },
                    }
                });
            }
            if same_text(&tc.predicate, &t.predicate) {
                let r = check(sc, g, state, t.object, tc.value_expr, Ghost(depth));
                match r {
                    Err(x) => {
                        return Err(x);
                    },
                    Ok(v) => {
                        covered = true;
                        if v.len() == 0 {
                            let full = match tc.max {
                                Some(m) => counts[c] >= m,
                                None => false,
                            };
                            if full {
                                if over.is_none() {
                                    over = Some(c);
                                }
                            } else {
                                let next = counts[c] + 1;
                                counts.set(c, next);
                                taken = true;
                            }
                        }
                    },
                }
            }
            if !taken {
                c += 1;
            }
        }
        if !taken {
            let ghost before = acc@;
            if !contains_text(&body.extra, &t.predicate) {
                match over {
                    Some(oc) => {
                        acc.push(
                            Reason {
                                focus: node,
                                value: Some(t.object),
                                expr: e,
                                kind: ReasonKind::MaxExceeded { triple, constraint: oc },
                            },
                        );
                    },
                    None => {
                        if covered {
                            acc.push(
                                Reason {
                                    focus: node,
                                    value: Some(t.object),
                                    expr: e,
                                    kind: ReasonKind::Unmatched { triple },
                                },
                            );
                        } else if body.closed {
                            acc.push(
                                Reason {
                                    focus: node,
                                    value: Some(t.object),
                                    expr: e,
                                    kind: ReasonKind::Closed { triple },
                                },
                            );
                        }
                    },
                }
            }
            assert(acc@ =~= before + body.leftover(
                node,
                e,
                triple,
                t.object,
                t.predicate@,
                covered,
                over,
            ));
        }
        i += 1;
    }
    let mut unmet = body.check_minimums(&counts, node, e);
    acc.append(&mut unmet);
    Ok(acc)
}

} // verus!
