//! The datatype component: every value node is a literal of a given
//! datatype.

use crate::component::{record, result_views, Component, ResultView, ValidationResult};
use crate::term::{same_text, Term, TermView};
use vstd::prelude::*;
use vstd::string::*;

verus! {

/// Pairs of a focus node and one of its value nodes, as values.
pub open spec fn pair_views(pairs: Seq<(Term, Term)>) -> Seq<(TermView, TermView)> {
    Seq::new(pairs.len(), |k: int| (pairs[k].0@, pairs[k].1@))
}

/// The datatype constraint component.
#[derive(Debug)]
pub struct Datatype {
    datatype: String,
}

impl Datatype {
    /// The datatype IRI that values must have.
    pub closed spec fn iri(&self) -> Seq<char> {
        self.datatype@
    }

    /// The component for the datatype with the given IRI.
    pub fn new(iri: &str) -> (c: Self)
        ensures
            c.iri() == iri@,
    {
        Datatype { datatype: String::from_str(iri) }
    }

    /// Whether the value satisfies the component: it is a literal with the
    /// datatype.
    pub open spec fn holds(&self, v: TermView) -> bool {
        v.datatype() == Some(self.iri())
    }

    /// The records of the first `k` pairs: one for each value that is no
    /// literal of the datatype, in order.
    pub open spec fn results_upto(&self, pairs: Seq<(TermView, TermView)>, k: int) -> Seq<
        ResultView,
    >
        decreases k,
    {
        if k <= 0 {
            Seq::empty()
        } else {
            let before = self.results_upto(pairs, k - 1);
            if self.holds(pairs[k - 1].1) {
                before
            } else {
                before.push(record(pairs[k - 1].0, pairs[k - 1].1, Component::Datatype))
            }
        }
    }

    /// The records of all pairs.
    pub open spec fn results(&self, pairs: Seq<(TermView, TermView)>) -> Seq<ResultView> {
        self.results_upto(pairs, pairs.len() as int)
    }

    /// Whether the value satisfies the component.
    pub fn check(&self, value: &Term) -> (b: bool)
        ensures
            b == self.holds(value@),
    {
        match value.datatype() {
            Some(d) => same_text(d, &self.datatype),
            None => false,
        }
    }

    /// The record that one value leaves, if it leaves one. Records are
    /// made one at a time with this function by a caller that reads only
    /// the first few.
    pub fn evaluate_one(&self, focus_node: &Term, value_node: &Term) -> (r: Option<
        ValidationResult,
    >)
        ensures
            r is None <==> self.holds(value_node@),
            r matches Some(x) ==> x@ == record(focus_node@, value_node@, Component::Datatype),
    {
        if self.check(value_node) {
            None
        } else {
            Some(ValidationResult::new(focus_node, Component::Datatype, Some(value_node)))
        }
    }

    /// The next record at or after position `from`, with the position to
    /// go on from: records are made one at a time, and none is made for
    /// the values behind the one a caller stops at. `None` when no value
    /// is left that breaks the constraint.
    pub fn next_result(&self, value_nodes: &Vec<(Term, Term)>, from: usize) -> (r: Option<
        (usize, ValidationResult),
    >)
        ensures
            match r {
                Some((next, x)) => {
                    &&& from < next <= value_nodes@.len()
                    &&& !self.holds(value_nodes@[next - 1].1@)
                    &&& forall|k: int| from <= k < next - 1 ==> self.holds((#[trigger] value_nodes@[k]).1@)
                    &&& x@ == record(
                        value_nodes@[next - 1].0@,
                        value_nodes@[next - 1].1@,
                        Component::Datatype,
                    )
                },
                None => forall|k: int|
                    from <= k < value_nodes@.len() ==> self.holds((#[trigger] value_nodes@[k]).1@),
            },
    {
        let mut k = from;
        while k < value_nodes.len()
            invariant
                from <= k,
                forall|j: int| from <= j < k ==> self.holds((#[trigger] value_nodes@[j]).1@),
            decreases value_nodes.len() - k,
        {
            match self.evaluate_one(&value_nodes[k].0, &value_nodes[k].1) {
                Some(x) => {
                    return Some((k + 1, x));
                },
                None => {},
            }
            k += 1;
        }
        None
    }

    /// The records of all value nodes, in order.
    pub fn evaluate(&self, value_nodes: &Vec<(Term, Term)>) -> (out: Vec<ValidationResult>)
        ensures
            result_views(out@) == self.results(pair_views(value_nodes@)),
    {
        let ghost pairs = pair_views(value_nodes@);
        let mut out: Vec<ValidationResult> = Vec::new();
        let mut k: usize = 0;
        while k < value_nodes.len()
            invariant
                k <= value_nodes.len(),
                pairs == pair_views(value_nodes@),
                result_views(out@) == self.results_upto(pairs, k as int),
            decreases value_nodes.len() - k,
        {
            let ghost before = result_views(out@);
            match self.evaluate_one(&value_nodes[k].0, &value_nodes[k].1) {
                Some(x) => {
                    out.push(x);
                    assert(result_views(out@) =~= before.push(x@));
                },
                None => {},
            }
            assert(pairs[k as int] == (value_nodes@[k as int].0@, value_nodes@[k as int].1@));
            k += 1;
        }
        out
    }

    /// The direct strategy: the records of all value nodes.
    pub fn evaluate_default(&self, value_nodes: &Vec<(Term, Term)>) -> (out: Vec<ValidationResult>)
        ensures
            result_views(out@) == self.results(pair_views(value_nodes@)),
    {
        self.evaluate(value_nodes)
    }

    /// The query strategy: a datatype is read off the term, so no query is
    /// asked and the records are those of the direct strategy.
    pub fn evaluate_sparql(&self, value_nodes: &Vec<(Term, Term)>) -> (out: Vec<ValidationResult>)
        ensures
            result_views(out@) == self.results(pair_views(value_nodes@)),
    {
        self.evaluate(value_nodes)
    }
}

} // verus!
