//! The minimum-length component: every value node is an IRI or a literal
//! whose text has at least a given number of characters.

use crate::component::{
    answer, answer_at, judge_answer, judged_answer, settle, settled, values_view, Component,
    ConstraintError, Judgement, ValidationReport,
};
use crate::term::{Term, TermKind, TermView};
use crate::value_nodes::ValueNodes;
use crate::text::{decimal_text, push_decimal, push_term, term_text};
use vstd::prelude::*;
use vstd::string::*;

verus! {

/// The minimum-length constraint component.
#[derive(Debug)]
pub struct MinLength {
    min_length: isize,
}

impl MinLength {
    /// The minimum number of characters.
    pub closed spec fn bound(&self) -> int {
        self.min_length as int
    }

    pub fn new(min_length: isize) -> (c: Self)
        ensures
            c.bound() == min_length,
    {
        MinLength { min_length }
    }

    /// The minimum number of characters.
    pub fn min_length(&self) -> (n: isize)
        ensures
            n == self.bound(),
    {
        self.min_length
    }

    /// Whether the value satisfies the component: it has a text, which a
    /// blank node has not, of at least the minimum length.
    pub open spec fn holds(&self, v: TermView) -> bool {
        v.text() matches Some(s) && s.len() >= self.bound()
    }

    /// The judgement of a value from the term itself.
    pub open spec fn judged_default(&self, v: TermView) -> Judgement {
        if self.holds(v) {
            Judgement::Pass
        } else {
            Judgement::Fail
        }
    }

    /// The judgement of a value from the store's answer: a blank node
    /// fails without a query.
    pub open spec fn judged_sparql(&self, v: TermView, answer: Option<bool>) -> Judgement {
        if v.kind() == TermKind::BlankNode {
            Judgement::Fail
        } else {
            judged_answer(answer)
        }
    }

    /// The direct judgements of the values.
    pub open spec fn default_judgements(&self, values: Seq<TermView>) -> Seq<Judgement> {
        Seq::new(values.len(), |k: int| self.judged_default(values[k]))
    }

    /// The judgements of the values from the answers.
    pub open spec fn sparql_judgements(
        &self,
        values: Seq<TermView>,
        answers: Seq<Option<bool>>,
    ) -> Seq<Judgement> {
        Seq::new(values.len(), |k: int| self.judged_sparql(values[k], answer_at(answers, k)))
    }

    /// The ask-query for a value.
    pub open spec fn query_text(&self, v: TermView) -> Seq<char> {
        " ASK { FILTER (STRLEN(str("@ + term_text(v) + ")) >= "@ + decimal_text(self.bound())
            + ") } "@
    }

    /// Whether the value satisfies the component.
    pub fn check(&self, value: &Term) -> (b: bool)
        ensures
            b == self.holds(value@),
    {
        match value.text_len() {
            Some(len) => {
                if self.min_length <= 0 {
                    true
                } else {
                    len >= self.min_length as usize
                }
            },
            None => false,
        }
    }

    /// The ask-query that decides a value, `None` for a blank node, which
    /// fails without one.
    pub fn sparql_query(&self, value: &Term) -> (q: Option<String>)
        ensures
            q is None <==> value@.kind() == TermKind::BlankNode,
            q matches Some(s) ==> s@ == self.query_text(value@),
    {
        if value.is_bnode() {
            return None;
        }
        let mut s = String::from_str(" ASK { FILTER (STRLEN(str(");
        push_term(&mut s, value);
        s.append(")) >= ");
        push_decimal(&mut s, self.min_length);
        s.append(") } ");
        assert(s@ =~= self.query_text(value@));
        Some(s)
    }

    /// Judges every value from the term itself and settles the judgements
    /// into the report.
    pub fn evaluate_default(
        &self,
        focus: &Term,
        value_nodes: &ValueNodes,
        report: &mut ValidationReport,
    ) -> (r: Result<bool, ConstraintError>)
        ensures
            final(report)@ == old(report)@ + settled(
                focus@,
                value_nodes@,
                Component::MinLength,
                self.default_judgements(value_nodes@),
                0,
            ).records,
            r == settled(
                focus@,
                value_nodes@,
                Component::MinLength,
                self.default_judgements(value_nodes@),
                0,
            ).result,
    {
        let ghost values = value_nodes@;
        let nodes = value_nodes.terms();
        let mut judgements: Vec<Judgement> = Vec::new();
        let mut k: usize = 0;
        while k < nodes.len()
            invariant
                k <= nodes.len(),
                values == value_nodes@,
                values_view(nodes@) == values,
                judgements@.len() == k,
                forall|j: int|
                    0 <= j < k ==> (#[trigger] judgements@[j]) == self.judged_default(values[j]),
            decreases nodes.len() - k,
        {
            assert(values[k as int] == nodes@[k as int]@);
            let j = if self.check(&nodes[k]) {
                Judgement::Pass
            } else {
                Judgement::Fail
            };
            judgements.push(j);
            k += 1;
        }
        assert(judgements@ =~= self.default_judgements(values));
        settle(focus, value_nodes, Component::MinLength, &judgements, report)
    }

    /// Judges every value from the answer that the store gave to its
    /// query, `answers` holding them in the order of the values, and
    /// settles the judgements into the report.
    pub fn evaluate_sparql(
        &self,
        focus: &Term,
        value_nodes: &ValueNodes,
        answers: &Vec<Option<bool>>,
        report: &mut ValidationReport,
    ) -> (r: Result<bool, ConstraintError>)
        ensures
            final(report)@ == old(report)@ + settled(
                focus@,
                value_nodes@,
                Component::MinLength,
                self.sparql_judgements(value_nodes@, answers@),
                0,
            ).records,
            r == settled(
                focus@,
                value_nodes@,
                Component::MinLength,
                self.sparql_judgements(value_nodes@, answers@),
                0,
            ).result,
    {
        let ghost values = value_nodes@;
        let nodes = value_nodes.terms();
        let mut judgements: Vec<Judgement> = Vec::new();
        let mut k: usize = 0;
        while k < nodes.len()
            invariant
                k <= nodes.len(),
                values == value_nodes@,
                values_view(nodes@) == values,
                judgements@.len() == k,
                forall|j: int|
                    0 <= j < k ==> (#[trigger] judgements@[j]) == self.judged_sparql(
                        values[j],
                        answer_at(answers@, j),
                    ),
            decreases nodes.len() - k,
        {
            assert(values[k as int] == nodes@[k as int]@);
            let j = if nodes[k].is_bnode() {
                Judgement::Fail
            } else {
                judge_answer(answer(answers, k))
            };
            judgements.push(j);
            k += 1;
        }
        assert(judgements@ =~= self.sparql_judgements(values, answers@));
        settle(focus, value_nodes, Component::MinLength, &judgements, report)
    }
}

/// The answers are those of a store that holds the same data: for every
/// value that is no blank node, whether the value satisfies the component.
pub open spec fn truthful(c: MinLength, values: Seq<TermView>, answers: Seq<Option<bool>>) -> bool {
    forall|k: int|
        0 <= k < values.len() && values[k].kind() != TermKind::BlankNode ==> #[trigger] answer_at(
            answers,
            k,
        ) == Some(c.holds(values[k]))
}

/// The two strategies of the minimum-length component agree: with the
/// answers of a store that holds the same data, the query strategy judges
/// every value as the direct strategy does, so both leave the same records
/// and return the same result.
pub proof fn law_min_length_strategies_agree(
    c: MinLength,
    focus: TermView,
    values: Seq<TermView>,
    answers: Seq<Option<bool>>,
)
    requires
        truthful(c, values, answers),
    ensures
        c.sparql_judgements(values, answers) == c.default_judgements(values),
        settled(focus, values, Component::MinLength, c.sparql_judgements(values, answers), 0)
            == settled(focus, values, Component::MinLength, c.default_judgements(values), 0),
{
    assert forall|k: int| 0 <= k < values.len() implies c.judged_sparql(
        values[k],
        answer_at(answers, k),
    ) == c.judged_default(values[k]) by {
        if values[k].kind() != TermKind::BlankNode {
            assert(answer_at(answers, k) == Some(c.holds(values[k])));
        }
    }
    assert(c.sparql_judgements(values, answers) =~= c.default_judgements(values));
}

} // verus!
