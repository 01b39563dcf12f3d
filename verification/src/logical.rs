//! The logical components: each value node is judged by the shapes it
//! conforms to.
//!
//! Whether a value conforms to a shape is decided by a validator. A
//! component takes those decisions, for each value one for each of its
//! shapes in order, `None` standing for a validation that failed.

use crate::component::{
    settle, settled, values_view, Component, ConstraintError, Judgement, ValidationReport,
};
use crate::term::{Term, TermView};
use crate::value_nodes::ValueNodes;
use vstd::prelude::*;

verus! {

/// How many of the first `k` decisions are that the value conforms.
pub open spec fn count_true(answers: Seq<Option<bool>>, k: int) -> nat
    decreases k,
{
    if k <= 0 {
        0
    } else {
        count_true(answers, k - 1) + if answers[k - 1] == Some(true) {
            1nat
        } else {
            0nat
        }
    }
}

/// Whether one of the first `n` decisions is missing.
pub open spec fn lacks_answer(answers: Seq<Option<bool>>, n: int) -> bool {
    answers.len() < n || exists|k: int| 0 <= k < n && (#[trigger] answers[k]) is None
}

/// To how many of `n` shapes the value conforms; nothing when a decision
/// is missing.
pub open spec fn tallied(answers: Seq<Option<bool>>, n: int) -> Option<nat> {
    if lacks_answer(answers, n) {
        None
    } else {
        Some(count_true(answers, n))
    }
}

/// To how many of `n` shapes the value conforms; nothing when a decision
/// is missing.
pub fn tally(answers: &Vec<Option<bool>>, n: usize) -> (r: Option<usize>)
    ensures
        r is Some <==> tallied(answers@, n as int) is Some,
        r matches Some(c) ==> tallied(answers@, n as int) == Some(c as nat),
{
    if answers.len() < n {
        return None;
    }
    let mut count: usize = 0;
    let mut k: usize = 0;
    while k < n
        invariant
            k <= n,
            n <= answers@.len(),
            count == count_true(answers@, k as int),
            count <= k,
            forall|j: int| 0 <= j < k ==> (#[trigger] answers@[j]) is Some,
        decreases n - k,
    {
        match answers[k] {
            None => {
                return None;
            },
            Some(true) => {
                count += 1;
            },
            Some(false) => {},
        }
        k += 1;
    }
    Some(count)
}

/// What a logical component of the given kind with `n` shapes says of a
/// value: a negation passes a value that conforms to none, a conjunction
/// one that conforms to all, a disjunction one that conforms to one at
/// least, an exclusive disjunction one that conforms to exactly one. A
/// missing decision ends the evaluation.
pub open spec fn judged_logical(kind: Component, n: int, answers: Seq<Option<bool>>) -> Judgement {
    match tallied(answers, n) {
        None => Judgement::Abort(ConstraintError::Shape),
        Some(c) => {
            let pass = match kind {
                Component::Not => c == 0,
                Component::And => c == n,
                Component::Or => c >= 1,
                Component::Xone => c == 1,
                _ => false,
            };
            if pass {
                Judgement::Pass
            } else {
                Judgement::Fail
            }
        },
    }
}

/// What a logical component says of a value.
pub fn judge_logical(kind: Component, n: usize, answers: &Vec<Option<bool>>) -> (j: Judgement)
    ensures
        j == judged_logical(kind, n as int, answers@),
{
    match tally(answers, n) {
        None => Judgement::Abort(ConstraintError::Shape),
        Some(c) => {
            let pass = match kind {
                Component::Not => c == 0,
                Component::And => c == n,
                Component::Or => c >= 1,
                Component::Xone => c == 1,
                _ => false,
            };
            if pass {
                Judgement::Pass
            } else {
                Judgement::Fail
            }
        },
    }
}

/// The decisions for the `k`-th value: none where they are missing.
pub open spec fn decisions_at(conformance: Seq<Vec<Option<bool>>>, k: int) -> Seq<Option<bool>> {
    if 0 <= k < conformance.len() {
        conformance[k]@
    } else {
        Seq::empty()
    }
}

/// The judgements of the values by a logical component.
pub open spec fn logical_judgements(
    kind: Component,
    n: int,
    values: Seq<TermView>,
    conformance: Seq<Vec<Option<bool>>>,
) -> Seq<Judgement> {
    Seq::new(values.len(), |k: int| judged_logical(kind, n, decisions_at(conformance, k)))
}

/// Judges every value by the shapes it conforms to and settles the
/// judgements into the report.
pub fn evaluate_logical(
    kind: Component,
    n: usize,
    focus: &Term,
    value_nodes: &ValueNodes,
    conformance: &Vec<Vec<Option<bool>>>,
    report: &mut ValidationReport,
) -> (r: Result<bool, ConstraintError>)
    ensures
        final(report)@ == old(report)@ + settled(
            focus@,
            value_nodes@,
            kind,
            logical_judgements(kind, n as int, value_nodes@, conformance@),
            0,
        ).records,
        r == settled(
            focus@,
            value_nodes@,
            kind,
            logical_judgements(kind, n as int, value_nodes@, conformance@),
            0,
        ).result,
{
    let none: Vec<Option<bool>> = Vec::new();
    let nodes = value_nodes.terms();
    let mut judgements: Vec<Judgement> = Vec::new();
    let mut k: usize = 0;
    while k < nodes.len()
        invariant
            k <= nodes.len(),
            values_view(nodes@) == value_nodes@,
            none@.len() == 0,
            judgements@.len() == k,
            forall|j: int|
                0 <= j < k ==> (#[trigger] judgements@[j]) == judged_logical(
                    kind,
                    n as int,
                    decisions_at(conformance@, j),
                ),
        decreases nodes.len() - k,
    {
        let j = if k < conformance.len() {
            judge_logical(kind, n, &conformance[k])
        } else {
            assert(none@ =~= decisions_at(conformance@, k as int));
            judge_logical(kind, n, &none)
        };
        judgements.push(j);
        k += 1;
    }
    assert(judgements@ =~= logical_judgements(
        kind,
        n as int,
        value_nodes@,
        conformance@,
    ));
    settle(focus, value_nodes, kind, &judgements, report)
}

/// The component that asks every value not to conform to a shape.
#[derive(Debug)]
pub struct NotConstraintComponent {
    shape: Term,
}

impl NotConstraintComponent {
    /// The shape, by the node that names it.
    pub closed spec fn shape_view(&self) -> TermView {
        self.shape@
    }

    pub fn new(shape: Term) -> (c: Self)
        ensures
            c.shape_view() == shape@,
    {
        NotConstraintComponent { shape }
    }

    /// The shape, by the node that names it.
    pub fn shape(&self) -> (t: &Term)
        ensures
            t@ == self.shape_view(),
    {
        &self.shape
    }

    /// Judges every value by whether it conforms to the shape.
    pub fn evaluate(
        &self,
        focus: &Term,
        value_nodes: &ValueNodes,
        conformance: &Vec<Vec<Option<bool>>>,
        report: &mut ValidationReport,
    ) -> (r: Result<bool, ConstraintError>)
        ensures
            final(report)@ == old(report)@ + settled(
                focus@,
                value_nodes@,
                Component::Not,
                logical_judgements(Component::Not, 1, value_nodes@, conformance@),
                0,
            ).records,
            r == settled(
                focus@,
                value_nodes@,
                Component::Not,
                logical_judgements(Component::Not, 1, value_nodes@, conformance@),
                0,
            ).result,
    {
        evaluate_logical(Component::Not, 1, focus, value_nodes, conformance, report)
    }
}

/// The views of a list of terms.
pub open spec fn shape_views(shapes: Seq<Term>) -> Seq<TermView> {
    Seq::new(shapes.len(), |k: int| shapes[k]@)
}

/// The component that asks every value to conform to all of its shapes.
#[derive(Debug)]
pub struct AndConstraintComponent {
    shapes: Vec<Term>,
}

impl AndConstraintComponent {
    /// The shapes, by the nodes that name them.
    pub closed spec fn shapes_view(&self) -> Seq<TermView> {
        shape_views(self.shapes@)
    }

    pub fn new(shapes: Vec<Term>) -> (c: Self)
        ensures
            c.shapes_view() == shape_views(shapes@),
    {
        AndConstraintComponent { shapes }
    }

    /// The number of shapes.
    pub fn shape_count(&self) -> (n: usize)
        ensures
            n == self.shapes_view().len(),
    {
        self.shapes.len()
    }

    /// The `k`-th shape, by the node that names it.
    pub fn shape(&self, k: usize) -> (t: Option<&Term>)
        ensures
            t is Some <==> k < self.shapes_view().len(),
            t matches Some(x) ==> x@ == self.shapes_view()[k as int],
    {
        if k < self.shapes.len() {
            Some(&self.shapes[k])
        } else {
            None
        }
    }

    /// Judges every value by the shapes it conforms to.
    pub fn evaluate(
        &self,
        focus: &Term,
        value_nodes: &ValueNodes,
        conformance: &Vec<Vec<Option<bool>>>,
        report: &mut ValidationReport,
    ) -> (r: Result<bool, ConstraintError>)
        ensures
            final(report)@ == old(report)@ + settled(
                focus@,
                value_nodes@,
                Component::And,
                logical_judgements(
                    Component::And,
                    self.shapes_view().len() as int,
                    value_nodes@,
                    conformance@,
                ),
                0,
            ).records,
            r == settled(
                focus@,
                value_nodes@,
                Component::And,
                logical_judgements(
                    Component::And,
                    self.shapes_view().len() as int,
                    value_nodes@,
                    conformance@,
                ),
                0,
            ).result,
    {
        evaluate_logical(Component::And, self.shapes.len(), focus, value_nodes, conformance, report)
    }
}

/// The component that asks every value to conform to one of its shapes at
/// least.
#[derive(Debug)]
pub struct OrConstraintComponent {
    shapes: Vec<Term>,
}

impl OrConstraintComponent {
    /// The shapes, by the nodes that name them.
    pub closed spec fn shapes_view(&self) -> Seq<TermView> {
        shape_views(self.shapes@)
    }

    pub fn new(shapes: Vec<Term>) -> (c: Self)
        ensures
            c.shapes_view() == shape_views(shapes@),
    {
        OrConstraintComponent { shapes }
    }

    /// The number of shapes.
    pub fn shape_count(&self) -> (n: usize)
        ensures
            n == self.shapes_view().len(),
    {
        self.shapes.len()
    }

    /// The `k`-th shape, by the node that names it.
    pub fn shape(&self, k: usize) -> (t: Option<&Term>)
        ensures
            t is Some <==> k < self.shapes_view().len(),
            t matches Some(x) ==> x@ == self.shapes_view()[k as int],
    {
        if k < self.shapes.len() {
            Some(&self.shapes[k])
        } else {
            None
        }
    }

    /// Judges every value by the shapes it conforms to.
    pub fn evaluate(
        &self,
        focus: &Term,
        value_nodes: &ValueNodes,
        conformance: &Vec<Vec<Option<bool>>>,
        report: &mut ValidationReport,
    ) -> (r: Result<bool, ConstraintError>)
        ensures
            final(report)@ == old(report)@ + settled(
                focus@,
                value_nodes@,
                Component::Or,
                logical_judgements(
                    Component::Or,
                    self.shapes_view().len() as int,
                    value_nodes@,
                    conformance@,
                ),
                0,
            ).records,
            r == settled(
                focus@,
                value_nodes@,
                Component::Or,
                logical_judgements(
                    Component::Or,
                    self.shapes_view().len() as int,
                    value_nodes@,
                    conformance@,
                ),
                0,
            ).result,
    {
        evaluate_logical(Component::Or, self.shapes.len(), focus, value_nodes, conformance, report)
    }
}

/// The component that asks every value to conform to exactly one of its
/// shapes.
#[derive(Debug)]
pub struct XoneConstraintComponent {
    shapes: Vec<Term>,
}

impl XoneConstraintComponent {
    /// The shapes, by the nodes that name them.
    pub closed spec fn shapes_view(&self) -> Seq<TermView> {
        shape_views(self.shapes@)
    }

    pub fn new(shapes: Vec<Term>) -> (c: Self)
        ensures
            c.shapes_view() == shape_views(shapes@),
    {
        XoneConstraintComponent { shapes }
    }

    /// The number of shapes.
    pub fn shape_count(&self) -> (n: usize)
        ensures
            n == self.shapes_view().len(),
    {
        self.shapes.len()
    }

    /// The `k`-th shape, by the node that names it.
    pub fn shape(&self, k: usize) -> (t: Option<&Term>)
        ensures
            t is Some <==> k < self.shapes_view().len(),
            t matches Some(x) ==> x@ == self.shapes_view()[k as int],
    {
        if k < self.shapes.len() {
            Some(&self.shapes[k])
        } else {
            None
        }
    }

    /// Judges every value by the shapes it conforms to.
    pub fn evaluate(
        &self,
        focus: &Term,
        value_nodes: &ValueNodes,
        conformance: &Vec<Vec<Option<bool>>>,
        report: &mut ValidationReport,
    ) -> (r: Result<bool, ConstraintError>)
        ensures
            final(report)@ == old(report)@ + settled(
                focus@,
                value_nodes@,
                Component::Xone,
                logical_judgements(
                    Component::Xone,
                    self.shapes_view().len() as int,
                    value_nodes@,
                    conformance@,
                ),
                0,
            ).records,
            r == settled(
                focus@,
                value_nodes@,
                Component::Xone,
                logical_judgements(
                    Component::Xone,
                    self.shapes_view().len() as int,
                    value_nodes@,
                    conformance@,
                ),
                0,
            ).result,
    {
        evaluate_logical(Component::Xone, self.shapes.len(), focus, value_nodes, conformance, report)
    }
}

} // verus!
