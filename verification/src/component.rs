//! What constraint components share: judgements of single values, the
//! records they leave in a report, and the two evaluation strategies.
//!
//! A component judges each value node by itself. The direct strategy
//! judges from the term; the query strategy judges from the answer that a
//! store gave to the component's ask-query for that value. Whatever the
//! strategy, the judgements are settled in the same way: every failing
//! value leaves one record, and the first value that cannot be judged ends
//! the evaluation with its error.

use crate::lookup::all_distinct;
use crate::term::{Term, TermView};
use crate::value_nodes::ValueNodes;
use vstd::prelude::*;

verus! {

/// The kinds of constraint component.
#[derive(Debug, Clone, Copy, PartialEq, Eq, Structural)]
pub enum Component {
    MinLength,
    Datatype,
    MinExclusive,
    MinInclusive,
    MaxExclusive,
    MaxInclusive,
    Not,
    And,
    Or,
    Xone,
}

/// Why a component could not judge a value.
#[derive(Debug, Clone, Copy, PartialEq, Eq, Structural)]
pub enum ConstraintError {
    /// The component cannot judge such a value under this strategy.
    NotImplemented,
    /// The store did not answer the query.
    Query,
    /// Whether the value conforms to a shape could not be decided.
    Shape,
}

/// What a component says of one value.
#[derive(Debug, Clone, Copy, PartialEq, Eq, Structural)]
pub enum Judgement {
    Pass,
    Fail,
    Abort(ConstraintError),
}

/// The answer to the query for the `k`-th value: none where the store gave
/// none.
pub open spec fn answer_at(answers: Seq<Option<bool>>, k: int) -> Option<bool> {
    if 0 <= k < answers.len() {
        answers[k]
    } else {
        None
    }
}

/// The answer to the query for the `k`-th value.
pub fn answer(answers: &Vec<Option<bool>>, k: usize) -> (a: Option<bool>)
    ensures
        a == answer_at(answers@, k as int),
{
    if k < answers.len() {
        answers[k]
    } else {
        None
    }
}

/// The judgement that an answer to an ask-query amounts to.
pub open spec fn judged_answer(answer: Option<bool>) -> Judgement {
    match answer {
        Some(true) => Judgement::Pass,
        Some(false) => Judgement::Fail,
        None => Judgement::Abort(ConstraintError::Query),
    }
}

/// The judgement that an answer to an ask-query amounts to.
pub fn judge_answer(answer: Option<bool>) -> (j: Judgement)
    ensures
        j == judged_answer(answer),
{
    match answer {
        Some(true) => Judgement::Pass,
        Some(false) => Judgement::Fail,
        None => Judgement::Abort(ConstraintError::Query),
    }
}

/// One violation of a constraint component.
#[derive(Debug)]
pub struct ValidationResult {
    pub focus_node: Term,
    pub value_node: Option<Term>,
    pub component: Component,
}

/// The mathematical value of a [`ValidationResult`].
pub struct ResultView {
    pub focus_node: TermView,
    pub value_node: Option<TermView>,
    pub component: Component,
}

impl View for ValidationResult {
    type V = ResultView;

    open spec fn view(&self) -> ResultView {
        ResultView {
            focus_node: self.focus_node@,
            value_node: match self.value_node {
                Some(t) => Some(t@),
                None => None,
            },
            component: self.component,
        }
    }
}

impl ValidationResult {
    /// The record of a value that violates a component.
    pub fn new(focus_node: &Term, component: Component, value_node: Option<&Term>) -> (r:
        ValidationResult)
        ensures
            r@ == (ResultView {
                focus_node: focus_node@,
                value_node: match value_node {
                    Some(t) => Some(t@),
                    None => None,
                },
                component,
            }),
    {
        let value = match value_node {
            Some(t) => Some(t.duplicate()),
            None => None,
        };
        ValidationResult { focus_node: focus_node.duplicate(), value_node: value, component }
    }
}

/// The views of a list of records.
pub open spec fn result_views(results: Seq<ValidationResult>) -> Seq<ResultView> {
    Seq::new(results.len(), |k: int| results[k]@)
}

/// The violations found so far, in the order they were found.
#[derive(Debug)]
pub struct ValidationReport {
    results: Vec<ValidationResult>,
}

impl View for ValidationReport {
    type V = Seq<ResultView>;

    closed spec fn view(&self) -> Seq<ResultView> {
        result_views(self.results@)
    }
}

impl ValidationReport {
    /// A report without records.
    pub fn new() -> (r: ValidationReport)
        ensures
            r@ == Seq::<ResultView>::empty(),
    {
        let r = ValidationReport { results: Vec::new() };
        assert(r@ =~= Seq::<ResultView>::empty());
        r
    }

    /// The number of records.
    pub fn len(&self) -> (n: usize)
        ensures
            n == self@.len(),
    {
        self.results.len()
    }

    /// Whether the report holds no violation.
    pub fn conforms(&self) -> (b: bool)
        ensures
            b == (self@.len() == 0),
    {
        self.results.len() == 0
    }

    /// The record at position `i`, if there is one.
    pub fn get(&self, i: usize) -> (r: Option<&ValidationResult>)
        ensures
            r is Some <==> i < self@.len(),
            r matches Some(x) ==> x@ == self@[i as int],
    {
        if i < self.results.len() {
            Some(&self.results[i])
        } else {
            None
        }
    }

    /// Appends a record.
    pub fn add(&mut self, result: ValidationResult)
        ensures
            final(self)@ == old(self)@.push(result@),
    {
        self.results.push(result);
        assert(self@ =~= old(self)@.push(result@));
    }

    /// Appends the record of a value that violates a component.
    pub fn make_validation_result(
        &mut self,
        focus_node: &Term,
        component: Component,
        value_node: Option<&Term>,
    )
        ensures
            final(self)@ == old(self)@.push(
                ResultView {
                    focus_node: focus_node@,
                    value_node: match value_node {
                        Some(t) => Some(t@),
                        None => None,
                    },
                    component,
                },
            ),
    {
        self.add(ValidationResult::new(focus_node, component, value_node));
    }

    /// Whether a record names the focus node and the component.
    pub open spec fn names(&self, focus_node: TermView, component: Component) -> bool {
        exists|k: int|
            0 <= k < self@.len() && (#[trigger] self@[k]).focus_node == focus_node
                && self@[k].component == component
    }

    /// Whether a record names the focus node.
    pub open spec fn names_node(&self, focus_node: TermView) -> bool {
        exists|k: int| 0 <= k < self@.len() && (#[trigger] self@[k]).focus_node == focus_node
    }

    /// Whether the focus node conforms to the component: no record names
    /// the pair.
    pub fn pair_conforms(&self, focus_node: &Term, component: Component) -> (b: bool)
        ensures
            b == !self.names(focus_node@, component),
    {
        let mut k: usize = 0;
        while k < self.results.len()
            invariant
                k <= self.results.len(),
                forall|j: int|
                    0 <= j < k ==> !((#[trigger] self@[j]).focus_node == focus_node@
                        && self@[j].component == component),
            decreases self.results.len() - k,
        {
            let r = &self.results[k];
            assert(self@[k as int] == r@);
            if r.component == component && r.focus_node.same(focus_node) {
                return false;
            }
            k += 1;
        }
        true
    }

    /// Whether the focus node conforms: no record names it.
    pub fn node_conforms(&self, focus_node: &Term) -> (b: bool)
        ensures
            b == !self.names_node(focus_node@),
    {
        let mut k: usize = 0;
        while k < self.results.len()
            invariant
                k <= self.results.len(),
                forall|j: int| 0 <= j < k ==> (#[trigger] self@[j]).focus_node != focus_node@,
            decreases self.results.len() - k,
        {
            let r = &self.results[k];
            assert(self@[k as int] == r@);
            if r.focus_node.same(focus_node) {
                return false;
            }
            k += 1;
        }
        true
    }
}

/// The views of a list of terms.
pub open spec fn values_view(values: Seq<Term>) -> Seq<TermView> {
    Seq::new(values.len(), |k: int| values[k]@)
}

/// The record that a failing value leaves.
pub open spec fn record(focus: TermView, value: TermView, component: Component) -> ResultView {
    ResultView { focus_node: focus, value_node: Some(value), component }
}

/// What settling the judgements from the `k`-th on comes to.
pub struct Settled {
    pub records: Seq<ResultView>,
    pub result: Result<bool, ConstraintError>,
}

/// Settles the judgements of the values from the `k`-th on: a record for
/// each failing value up to the first that could not be judged, and either
/// that value's error or whether every value passed.
pub open spec fn settled(
    focus: TermView,
    values: Seq<TermView>,
    component: Component,
    judgements: Seq<Judgement>,
    k: int,
) -> Settled
    decreases judgements.len() - k,
{
    if k < 0 || k >= judgements.len() || k >= values.len() {
        Settled { records: Seq::empty(), result: Ok(true) }
    } else {
        match judgements[k] {
            Judgement::Abort(e) => Settled { records: Seq::empty(), result: Err(e) },
            Judgement::Pass => settled(focus, values, component, judgements, k + 1),
            Judgement::Fail => {
                let rest = settled(focus, values, component, judgements, k + 1);
                Settled {
                    records: seq![record(focus, values[k], component)] + rest.records,
                    result: match rest.result {
                        Ok(_) => Ok(false),
                        Err(e) => Err(e),
                    },
                }
            },
        }
    }
}

/// The record is that of a value at position `k` or after.
pub open spec fn recorded_from(
    focus: TermView,
    values: Seq<TermView>,
    component: Component,
    r: ResultView,
    k: int,
) -> bool {
    exists|m: int| k <= m < values.len() && r == record(focus, #[trigger] values[m], component)
}

/// What settling from `k` on leaves are records of values at `k` or
/// after, and no two of them are of the same value.
proof fn lemma_settled_records(
    focus: TermView,
    values: Seq<TermView>,
    component: Component,
    judgements: Seq<Judgement>,
    k: int,
)
    requires
        all_distinct(values),
        0 <= k,
    ensures
        forall|i: int|
            0 <= i < settled(focus, values, component, judgements, k).records.len()
                ==> recorded_from(
                focus,
                values,
                component,
                #[trigger] settled(focus, values, component, judgements, k).records[i],
                k,
            ),
        forall|i: int, j: int|
            0 <= i < j < settled(focus, values, component, judgements, k).records.len()
                ==> settled(focus, values, component, judgements, k).records[i].value_node
                != settled(focus, values, component, judgements, k).records[j].value_node,
    decreases judgements.len() - k,
{
    let here = settled(focus, values, component, judgements, k).records;
    if !(k >= judgements.len() || k >= values.len()) {
        lemma_settled_records(focus, values, component, judgements, k + 1);
        let rest = settled(focus, values, component, judgements, k + 1).records;
        match judgements[k] {
            Judgement::Abort(_) => {},
            Judgement::Pass => {
                assert forall|i: int| 0 <= i < here.len() implies recorded_from(
                    focus,
                    values,
                    component,
                    #[trigger] here[i],
                    k,
                ) by {
                    assert(recorded_from(focus, values, component, rest[i], k + 1));
                    let m = choose|m: int|
                        k + 1 <= m < values.len() && rest[i] == record(
                            focus,
                            #[trigger] values[m],
                            component,
                        );
                    assert(here[i] == record(focus, values[m], component));
                }
            },
            Judgement::Fail => {
                assert(here == seq![record(focus, values[k], component)] + rest);
                assert forall|i: int| 0 <= i < here.len() implies recorded_from(
                    focus,
                    values,
                    component,
                    #[trigger] here[i],
                    k,
                ) by {
                    if i == 0 {
                        assert(here[0] == record(focus, values[k], component));
                    } else {
                        assert(here[i] == rest[i - 1]);
                        assert(recorded_from(focus, values, component, rest[i - 1], k + 1));
                        let m = choose|m: int|
                            k + 1 <= m < values.len() && rest[i - 1] == record(
                                focus,
                                #[trigger] values[m],
                                component,
                            );
                        assert(here[i] == record(focus, values[m], component));
                    }
                }
                assert forall|i: int, j: int| 0 <= i < j < here.len() implies here[i].value_node
                    != here[j].value_node by {
                    assert(here[j] == rest[j - 1]);
                    if i == 0 {
                        assert(recorded_from(focus, values, component, rest[j - 1], k + 1));
                        let m = choose|m: int|
                            k + 1 <= m < values.len() && rest[j - 1] == record(
                                focus,
                                #[trigger] values[m],
                                component,
                            );
                        assert(values[k] != values[m]);
                    } else {
                        assert(here[i] == rest[i - 1]);
                    }
                }
            },
        }
    }
}

/// No value leaves two records: the value nodes are a set, so the records
/// that settling their judgements leaves are of different values.
pub proof fn law_no_value_is_recorded_twice(
    focus: TermView,
    values: Seq<TermView>,
    component: Component,
    judgements: Seq<Judgement>,
)
    requires
        all_distinct(values),
    ensures
        forall|i: int, j: int|
            0 <= i < j < settled(focus, values, component, judgements, 0).records.len()
                ==> settled(focus, values, component, judgements, 0).records[i].value_node
                != settled(focus, values, component, judgements, 0).records[j].value_node,
{
    lemma_settled_records(focus, values, component, judgements, 0);
}

/// Whether every value passed, given that the values before did when
/// `so_far` holds.
pub open spec fn merged(so_far: bool, rest: Result<bool, ConstraintError>) -> Result<
    bool,
    ConstraintError,
> {
    match rest {
        Ok(b) => Ok(so_far && b),
        Err(e) => Err(e),
    }
}

/// Settles the judgements of the value nodes of a focus node into the
/// report.
pub fn settle(
    focus: &Term,
    value_nodes: &ValueNodes,
    component: Component,
    judgements: &Vec<Judgement>,
    report: &mut ValidationReport,
) -> (r: Result<bool, ConstraintError>)
    requires
        judgements@.len() == value_nodes@.len(),
    ensures
        final(report)@ == old(report)@ + settled(
            focus@,
            value_nodes@,
            component,
            judgements@,
            0,
        ).records,
        r == settled(focus@, value_nodes@, component, judgements@, 0).result,
{
    let ghost values = value_nodes@;
    let ghost target = settled(focus@, values, component, judgements@, 0);
    let nodes = value_nodes.terms();
    let mut ans = true;
    let mut k: usize = 0;
    while k < nodes.len()
        invariant
            k <= nodes.len(),
            judgements@.len() == value_nodes@.len(),
            values == value_nodes@,
            values_view(nodes@) == values,
            target == settled(focus@, values, component, judgements@, 0),
            old(report)@ + target.records == report@ + settled(
                focus@,
                values,
                component,
                judgements@,
                k as int,
            ).records,
            target.result == merged(
                ans,
                settled(focus@, values, component, judgements@, k as int).result,
            ),
        decreases nodes.len() - k,
    {
        let ghost here = settled(focus@, values, component, judgements@, k as int);
        let ghost rest = settled(focus@, values, component, judgements@, k + 1);
        let ghost before = report@;
        match judgements[k] {
            Judgement::Abort(e) => {
                assert(report@ =~= old(report)@ + target.records);
                return Err(e);
            },
            Judgement::Pass => {},
            Judgement::Fail => {
                ans = false;
                assert(values[k as int] == nodes@[k as int]@);
                report.make_validation_result(focus, component, Some(&nodes[k]));
                assert(here.records == seq![record(focus@, values[k as int], component)]
                    + rest.records);
                assert(report@ + rest.records =~= before + here.records);
            },
        }
        k += 1;
    }
    assert(report@ =~= old(report)@ + target.records);
    Ok(ans)
}

} // verus!
