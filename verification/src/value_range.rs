//! The value-range components: bounds on the values of a node, decided by
//! a store that can compare literals.

use crate::component::{
    answer, answer_at, judge_answer, judged_answer, settle, settled, values_view, Component,
    ConstraintError, Judgement, ValidationReport,
};
use crate::term::{Literal, Term, TermKind, TermView};
use crate::value_nodes::ValueNodes;
use crate::text::{push_term, term_text};
use vstd::prelude::*;
use vstd::string::*;

verus! {

/// The judgement of a value by a range component: a blank node fails
/// without a query, any other value is judged by the answer to its query.
pub open spec fn judged_range(v: TermView, answer: Option<bool>) -> Judgement {
    if v.kind() == TermKind::BlankNode {
        Judgement::Fail
    } else {
        judged_answer(answer)
    }
}

/// The judgements of the values by a range component.
pub open spec fn answer_judgements(values: Seq<TermView>, answers: Seq<Option<bool>>) -> Seq<
    Judgement,
> {
    Seq::new(values.len(), |k: int| judged_range(values[k], answer_at(answers, k)))
}

/// Judges every value: a blank node fails, any other value is judged by
/// the answer to its query.
pub fn judge_answers(value_nodes: &ValueNodes, answers: &Vec<Option<bool>>) -> (out: Vec<
    Judgement,
>)
    ensures
        out@ == answer_judgements(value_nodes@, answers@),
{
    let ghost values = value_nodes@;
    let nodes = value_nodes.terms();
    let mut out: Vec<Judgement> = Vec::new();
    let mut k: usize = 0;
    while k < nodes.len()
        invariant
            k <= nodes.len(),
            values == value_nodes@,
            values_view(nodes@) == values,
            out@.len() == k,
            forall|j: int|
                0 <= j < k ==> (#[trigger] out@[j]) == judged_range(
                    values[j],
                    answer_at(answers@, j),
                ),
        decreases nodes.len() - k,
    {
        assert(values[k as int] == nodes@[k as int]@);
        let j = if nodes[k].is_bnode() {
            Judgement::Fail
        } else {
            judge_answer(answer(answers, k))
        };
        out.push(j);
        k += 1;
    }
    assert(out@ =~= answer_judgements(values, answers@));
    out
}

/// The component that asks every value to be greater than a bound.
#[derive(Debug)]
pub struct MinExclusiveConstraintComponent {
    literal: Literal,
}

impl MinExclusiveConstraintComponent {
    pub closed spec fn bound(&self) -> TermView {
        self.literal.term_view()
    }

    pub fn new(literal: Literal) -> (c: Self)
        ensures
            c.bound() == literal.term_view(),
    {
        MinExclusiveConstraintComponent { literal }
    }
}

/// The component that asks every value to be a bound at least.
#[derive(Debug)]
pub struct MinInclusiveConstraintComponent {
    literal: Literal,
}

impl MinInclusiveConstraintComponent {
    pub closed spec fn bound(&self) -> TermView {
        self.literal.term_view()
    }

    pub fn new(literal: Literal) -> (c: Self)
        ensures
            c.bound() == literal.term_view(),
    {
        MinInclusiveConstraintComponent { literal }
    }
}

/// The component that asks every value to be less than a bound.
#[derive(Debug)]
pub struct MaxExclusiveConstraintComponent {
    literal: Literal,
}

impl MaxExclusiveConstraintComponent {
    pub closed spec fn bound(&self) -> TermView {
        self.literal.term_view()
    }

    pub fn new(literal: Literal) -> (c: Self)
        ensures
            c.bound() == literal.term_view(),
    {
        MaxExclusiveConstraintComponent { literal }
    }
}

/// The component that asks every value to be a bound at most.
#[derive(Debug)]
pub struct MaxInclusiveConstraintComponent {
    literal: Literal,
}

impl MaxInclusiveConstraintComponent {
    pub closed spec fn bound(&self) -> TermView {
        self.literal.term_view()
    }

    pub fn new(literal: Literal) -> (c: Self)
        ensures
            c.bound() == literal.term_view(),
    {
        MaxInclusiveConstraintComponent { literal }
    }
}

/// The exclusive upper bound with its two strategies.
#[derive(Debug)]
pub struct MaxExclusive {
    max_exclusive: Term,
}

impl MaxExclusive {
    /// The bound, as a term.
    pub closed spec fn bound(&self) -> TermView {
        self.max_exclusive@
    }

    pub fn new(literal: Literal) -> (c: Self)
        ensures
            c.bound() == literal.term_view(),
    {
        MaxExclusive { max_exclusive: literal.into_term() }
    }

    /// The ask-query for a value: whether the value is less than the bound.
    pub open spec fn query_text(&self, v: TermView) -> Seq<char> {
        " ASK { FILTER ("@ + term_text(v) + " < "@ + term_text(self.bound()) + ") } "@
    }

    /// The ask-query that decides a value, `None` for a blank node, which
    /// fails without one.
    pub fn sparql_query(&self, value: &Term) -> (q: Option<String>)
        ensures
            q is None <==> value@.kind() == TermKind::BlankNode,
            q matches Some(s) ==> s@ == self.query_text(value@),
    {
        if value.is_bnode() {
            return None;
        }
        let mut s = String::from_str(" ASK { FILTER (");
        push_term(&mut s, value);
        s.append(" < ");
        push_term(&mut s, &self.max_exclusive);
        s.append(") } ");
        assert(s@ =~= self.query_text(value@));
        Some(s)
    }

    /// The direct strategy cannot compare literals: it judges no value
    /// and leaves the report as it is.
    pub fn evaluate_default(
        &self,
        focus: &Term,
        value_nodes: &ValueNodes,
        report: &mut ValidationReport,
    ) -> (r: Result<bool, ConstraintError>)
        ensures
            r == Err::<bool, ConstraintError>(ConstraintError::NotImplemented),
            final(report)@ == old(report)@,
    {
        Err(ConstraintError::NotImplemented)
    }

    /// Judges every value, a blank node as failing and any other value
    /// from the answer that the store gave to its query, and settles the
    /// judgements into the report.
    pub fn evaluate_sparql(
        &self,
        focus: &Term,
        value_nodes: &ValueNodes,
        answers: &Vec<Option<bool>>,
        report: &mut ValidationReport,
    ) -> (r: Result<bool, ConstraintError>)
        ensures
            final(report)@ == old(report)@ + settled(
                focus@,
                value_nodes@,
                Component::MaxExclusive,
                answer_judgements(value_nodes@, answers@),
                0,
            ).records,
            r == settled(
                focus@,
                value_nodes@,
                Component::MaxExclusive,
                answer_judgements(value_nodes@, answers@),
                0,
            ).result,
    {
        let judgements = judge_answers(value_nodes, answers);
        settle(focus, value_nodes, Component::MaxExclusive, &judgements, report)
    }
}

/// The inclusive lower bound with its two strategies.
#[derive(Debug)]
pub struct MinInclusive {
    min_inclusive: Term,
}

impl MinInclusive {
    /// The bound, as a term.
    pub closed spec fn bound(&self) -> TermView {
        self.min_inclusive@
    }

    pub fn new(literal: Literal) -> (c: Self)
        ensures
            c.bound() == literal.term_view(),
    {
        MinInclusive { min_inclusive: literal.into_term() }
    }

    /// The ask-query for a value: whether the value is the bound at least.
    pub open spec fn query_text(&self, v: TermView) -> Seq<char> {
        " ASK { FILTER ("@ + term_text(v) + " >= "@ + term_text(self.bound()) + ") } "@
    }

    /// The ask-query that decides a value, `None` for a blank node, which
    /// fails without one.
    pub fn sparql_query(&self, value: &Term) -> (q: Option<String>)
        ensures
            q is None <==> value@.kind() == TermKind::BlankNode,
            q matches Some(s) ==> s@ == self.query_text(value@),
    {
        if value.is_bnode() {
            return None;
        }
        let mut s = String::from_str(" ASK { FILTER (");
        push_term(&mut s, value);
        s.append(" >= ");
        push_term(&mut s, &self.min_inclusive);
        s.append(") } ");
        assert(s@ =~= self.query_text(value@));
        Some(s)
    }

    /// The direct strategy cannot compare literals: it judges no value
    /// and leaves the report as it is.
    pub fn evaluate_default(
        &self,
        focus: &Term,
        value_nodes: &ValueNodes,
        report: &mut ValidationReport,
    ) -> (r: Result<bool, ConstraintError>)
        ensures
            r == Err::<bool, ConstraintError>(ConstraintError::NotImplemented),
            final(report)@ == old(report)@,
    {
        Err(ConstraintError::NotImplemented)
    }

    /// Judges every value, a blank node as failing and any other value
    /// from the answer that the store gave to its query, and settles the
    /// judgements into the report.
    pub fn evaluate_sparql(
        &self,
        focus: &Term,
        value_nodes: &ValueNodes,
        answers: &Vec<Option<bool>>,
        report: &mut ValidationReport,
    ) -> (r: Result<bool, ConstraintError>)
        ensures
            final(report)@ == old(report)@ + settled(
                focus@,
                value_nodes@,
                Component::MinInclusive,
                answer_judgements(value_nodes@, answers@),
                0,
            ).records,
            r == settled(
                focus@,
                value_nodes@,
                Component::MinInclusive,
                answer_judgements(value_nodes@, answers@),
                0,
            ).result,
    {
        let judgements = judge_answers(value_nodes, answers);
        settle(focus, value_nodes, Component::MinInclusive, &judgements, report)
    }
}

} // verus!
