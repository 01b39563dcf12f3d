//! An in-memory graph: interned terms and the triples between them.
//!
//! Every term has one handle, its position in the term table. A node may
//! be marked unreadable, which stands for a store that failed to deliver
//! the node's arcs, and may carry the answer of an external shape.

use crate::lookup::{
    all_distinct, first_at, first_index, lemma_absent_has_no_index, lemma_first_is_index,
    lemma_index_is_first,
};
use crate::term::{same_text, Term, TermView};
use vstd::prelude::*;

verus! {

/// A triple between two interned terms.
#[derive(Debug)]
pub struct Triple {
    pub subject: usize,
    pub predicate: String,
    pub object: usize,
}

/// The triples among the first `upto` whose subject is `node`, by position
/// and in order.
pub open spec fn arcs_from(triples: Seq<Triple>, node: int, upto: int) -> Seq<usize>
    decreases upto,
{
    if upto <= 0 {
        Seq::empty()
    } else {
        let rest = arcs_from(triples, node, upto - 1);
        if triples[upto - 1].subject == node {
            rest.push((upto - 1) as usize)
        } else {
            rest
        }
    }
}

/// The views of a list of terms, in order.
pub open spec fn term_views(terms: Seq<Term>) -> Seq<TermView> {
    Seq::new(terms.len(), |k: int| terms[k]@)
}

/// The terms with `t` among them: as they are when they hold it, with it
/// at the end else.
pub open spec fn interned(terms: Seq<TermView>, t: TermView) -> Seq<TermView> {
    if first_index(terms, t) is Some {
        terms
    } else {
        terms.push(t)
    }
}

/// A per-node table grown to `len` entries of `fill`.
pub open spec fn padded<T>(table: Seq<T>, len: nat, fill: T) -> Seq<T> {
    Seq::new(
        len,
        |k: int|
            if k < table.len() {
                table[k]
            } else {
                fill
            },
    )
}

/// What a graph holds, as a mathematical value: the terms, a node's
/// handle being its position; the triples in the order they were added;
/// for each node whether its arcs can be read and what the external shape
/// answered for it.
pub struct GraphView {
    pub terms: Seq<TermView>,
    pub triples: Seq<Triple>,
    pub readable: Seq<bool>,
    pub external: Seq<Option<bool>>,
}

impl GraphView {
    pub open spec fn term_seq(self) -> Seq<TermView> {
        self.terms
    }

    pub open spec fn triple_seq(self) -> Seq<Triple> {
        self.triples
    }

    pub open spec fn readable_seq(self) -> Seq<bool> {
        self.readable
    }

    pub open spec fn external_seq(self) -> Seq<Option<bool>> {
        self.external
    }

    /// The triples that leave `node`, by position and in order.
    pub open spec fn neighbours(self, node: int) -> Seq<usize> {
        arcs_from(self.triples, node, self.triples.len() as int)
    }

    /// The graph that holds one term and nothing else: a readable node
    /// without arcs and without external answer.
    pub open spec fn lone(t: TermView) -> GraphView {
        GraphView {
            terms: seq![t],
            triples: Seq::empty(),
            readable: seq![true],
            external: seq![None],
        }
    }
}

/// A graph of interned terms.
pub struct Graph {
    terms: Vec<Term>,
    triples: Vec<Triple>,
    readable: Vec<bool>,
    external: Vec<Option<bool>>,
}

impl View for Graph {
    type V = GraphView;

    closed spec fn view(&self) -> GraphView {
        GraphView {
            terms: term_views(self.terms@),
            triples: self.triples@,
            readable: self.readable@,
            external: self.external@,
        }
    }
}

impl Graph {
    /// The terms of the graph; a node's handle is its position.
    pub open spec fn term_seq(&self) -> Seq<TermView> {
        self@.terms
    }

    /// The triples of the graph, in the order they were added.
    pub open spec fn triple_seq(&self) -> Seq<Triple> {
        self@.triples
    }

    /// For each node, whether its arcs can be read.
    pub open spec fn readable_seq(&self) -> Seq<bool> {
        self@.readable
    }

    /// For each node, the answer of the external shape, where one is known.
    pub open spec fn external_seq(&self) -> Seq<Option<bool>> {
        self@.external
    }

    /// Terms are interned once, the per-node tables cover every node and
    /// every triple joins two nodes of the graph.
    pub open spec fn wf(&self) -> bool {
        &&& all_distinct(self.term_seq())
        &&& self.readable_seq().len() == self.term_seq().len()
        &&& self.external_seq().len() == self.term_seq().len()
        &&& forall|t: int|
            0 <= t < self.triple_seq().len() ==> {
                &&& (#[trigger] self.triple_seq()[t]).subject < self.term_seq().len()
                &&& self.triple_seq()[t].object < self.term_seq().len()
            }
    }

    /// The triples that leave `node`, by position and in order.
    pub open spec fn neighbours(&self, node: int) -> Seq<usize> {
        arcs_from(self.triple_seq(), node, self.triple_seq().len() as int)
    }

    /// Whether the graph holds the triple.
    pub open spec fn has_triple(&self, subject: int, predicate: Seq<char>, object: int) -> bool {
        exists|t: int|
            0 <= t < self.triple_seq().len() && (#[trigger] self.triple_seq()[t]).subject
                == subject && self.triple_seq()[t].predicate@ == predicate
                && self.triple_seq()[t].object == object
    }

    /// The empty graph.
    pub fn new() -> (g: Graph)
        ensures
            g.wf(),
            g.term_seq().len() == 0,
            g.triple_seq().len() == 0,
    {
        Graph { terms: Vec::new(), triples: Vec::new(), readable: Vec::new(), external: Vec::new() }
    }

    /// The number of nodes.
    pub fn node_count(&self) -> (n: usize)
        ensures
            n == self.term_seq().len(),
    {
        self.terms.len()
    }

    /// The number of triples.
    pub fn triple_count(&self) -> (n: usize)
        ensures
            n == self.triple_seq().len(),
    {
        self.triples.len()
    }

    /// The term with handle `node`.
    pub fn term(&self, node: usize) -> (t: &Term)
        requires
            node < self.term_seq().len(),
        ensures
            t@ == self.term_seq()[node as int],
    {
        &self.terms[node]
    }

    /// The triple at position `t`.
    pub fn triple(&self, t: usize) -> (r: &Triple)
        requires
            t < self.triple_seq().len(),
        ensures
            *r == self.triple_seq()[t as int],
    {
        &self.triples[t]
    }

    /// The handle of a term, `None` when the graph does not hold it.
    pub fn find_node(&self, term: &Term) -> (r: Option<usize>)
        ensures
            r is Some <==> first_index(self.term_seq(), term@) is Some,
            r matches Some(k) ==> first_index(self.term_seq(), term@) == Some(k as int) && k
                < self.term_seq().len(),
    {
        let ghost views = self.term_seq();
        let mut k: usize = 0;
        while k < self.terms.len()
            invariant
                k <= self.terms.len(),
                views == term_views(self.terms@),
                forall|j: int| 0 <= j < k ==> views[j] != term@,
            decreases self.terms.len() - k,
        {
            if self.terms[k].same(term) {
                proof {
                    assert(views[k as int] == term@);
                    assert(first_at(views, term@, k as int));
                    lemma_first_is_index(views, term@, k as int);
                }
                return Some(k);
            }
            k += 1;
        }
        proof {
            lemma_absent_has_no_index(views, term@);
        }
        None
    }

    /// Interns a term: its handle if the graph holds it already, else the
    /// handle of a new node without arcs, readable and without external
    /// answer.
    pub fn add_node(&mut self, term: Term) -> (k: usize)
        requires
            old(self).wf(),
        ensures
            final(self).wf(),
            k < final(self).term_seq().len(),
            final(self).term_seq()[k as int] == term@,
            final(self).triple_seq() == old(self).triple_seq(),
            match first_index(old(self).term_seq(), term@) {
                Some(i) => {
                    &&& k == i
                    &&& final(self).term_seq() == old(self).term_seq()
                    &&& final(self).readable_seq() == old(self).readable_seq()
                    &&& final(self).external_seq() == old(self).external_seq()
                },
                None => {
                    &&& k == old(self).term_seq().len()
                    &&& final(self).term_seq() == old(self).term_seq().push(term@)
                    &&& final(self).readable_seq() == old(self).readable_seq().push(true)
                    &&& final(self).external_seq() == old(self).external_seq().push(None)
                },
            },
    {
        match self.find_node(&term) {
            Some(i) => {
                proof {
                    lemma_index_is_first(self.term_seq(), term@);
                }
                i
            },
            None => {
                let k = self.terms.len();
                let ghost before = self.term_seq();
                self.terms.push(term);
                self.readable.push(true);
                self.external.push(None);
                proof {
                    assert(self.term_seq() =~= before.push(term@));
                    assert(self.triple_seq() == old(self).triple_seq());
                    assert forall|i: int, j: int| 0 <= i < j < self.term_seq().len() implies self.term_seq()[i]
                        != self.term_seq()[j] by {
                        if j == before.len() {
                            assert(before[i] != term@);
                        }
                    }
                }
                k
            },
        }
    }

    /// The position of the triple in the graph, if the graph holds it.
    pub fn find_triple(&self, subject: usize, predicate: &String, object: usize) -> (r: Option<usize>)
        ensures
            r is Some <==> self.has_triple(subject as int, predicate@, object as int),
            r matches Some(t) ==> {
                &&& t < self.triple_seq().len()
                &&& self.triple_seq()[t as int].subject == subject
                &&& self.triple_seq()[t as int].predicate@ == predicate@
                &&& self.triple_seq()[t as int].object == object
            },
    {
        let mut t: usize = 0;
        while t < self.triples.len()
            invariant
                t <= self.triples.len(),
                forall|j: int|
                    0 <= j < t ==> !((#[trigger] self.triples@[j]).subject == subject
                        && self.triples@[j].predicate@ == predicate@ && self.triples@[j].object
                        == object),
            decreases self.triples.len() - t,
        {
            let tr = &self.triples[t];
            if tr.subject == subject && tr.object == object && same_text(&tr.predicate, predicate) {
                assert(self.triple_seq()[t as int].subject == subject);
                return Some(t);
            }
            t += 1;
        }
        None
    }

    /// Adds the triple between two terms, interning the subject and then
    /// the object. Returns `false` and leaves the triples as they are when
    /// the graph holds the triple already; else the triple is the last.
    pub fn add_triple(&mut self, subject: Term, predicate: &str, object: Term) -> (added: bool)
        requires
            old(self).wf(),
        ensures
            final(self).wf(),
            final(self).term_seq() == interned(interned(old(self).term_seq(), subject@), object@),
            final(self).readable_seq() == padded(
                old(self).readable_seq(),
                final(self).term_seq().len(),
                true,
            ),
            final(self).external_seq() == padded(
                old(self).external_seq(),
                final(self).term_seq().len(),
                None,
            ),
            ({
                let terms = final(self).term_seq();
                let s = first_index(terms, subject@);
                let o = first_index(terms, object@);
                &&& s is Some
                &&& o is Some
                &&& added == !old(self).has_triple(s.unwrap(), predicate@, o.unwrap())
                &&& !added ==> final(self).triple_seq() == old(self).triple_seq()
                &&& added ==> {
                    &&& final(self).triple_seq().len() == old(self).triple_seq().len() + 1
                    &&& final(self).triple_seq().drop_last() == old(self).triple_seq()
                    &&& final(self).triple_seq().last().subject == s.unwrap()
                    &&& final(self).triple_seq().last().predicate@ == predicate@
                    &&& final(self).triple_seq().last().object == o.unwrap()
                }
            }),
    {
        let s = self.add_node(subject);
        let o = self.add_node(object);
        proof {
            crate::lookup::lemma_distinct_index(self.term_seq(), s as int);
            crate::lookup::lemma_distinct_index(self.term_seq(), o as int);
            assert(self.readable_seq() =~= padded(
                old(self).readable_seq(),
                self.term_seq().len(),
                true,
            ));
            assert(self.external_seq() =~= padded(
                old(self).external_seq(),
                self.term_seq().len(),
                None,
            ));
        }
        let p = predicate.to_owned();
        match self.find_triple(s, &p, o) {
            Some(_) => false,
            None => {
                let ghost before = self.triples@;
                self.triples.push(Triple { subject: s, predicate: p, object: o });
                proof {
                    assert(self.triples@.drop_last() =~= before);
                    let last = self.triples@.len() - 1;
                    assert(self.triple_seq()[last].subject == s);
                }
                true
            },
        }
    }

    /// Marks a node as one whose arcs the store could not deliver.
    pub fn mark_unreadable(&mut self, node: usize)
        requires
            old(self).wf(),
            node < old(self).term_seq().len(),
        ensures
            final(self).wf(),
            final(self).term_seq() == old(self).term_seq(),
            final(self).triple_seq() == old(self).triple_seq(),
            final(self).external_seq() == old(self).external_seq(),
            final(self).readable_seq() == old(self).readable_seq().update(node as int, false),
    {
        self.readable.set(node, false);
        assert(self.triple_seq() == old(self).triple_seq());
        assert(self.term_seq() == old(self).term_seq());
    }

    /// Records what the external shape answered for a node.
    pub fn set_external(&mut self, node: usize, conforms: bool)
        requires
            old(self).wf(),
            node < old(self).term_seq().len(),
        ensures
            final(self).wf(),
            final(self).term_seq() == old(self).term_seq(),
            final(self).triple_seq() == old(self).triple_seq(),
            final(self).readable_seq() == old(self).readable_seq(),
            final(self).external_seq() == old(self).external_seq().update(
                node as int,
                Some(conforms),
            ),
    {
        self.external.set(node, Some(conforms));
        assert(self.triple_seq() == old(self).triple_seq());
        assert(self.term_seq() == old(self).term_seq());
    }

    /// Whether the arcs of `node` can be read.
    pub fn is_readable(&self, node: usize) -> (b: bool)
        requires
            self.wf(),
            node < self.term_seq().len(),
        ensures
            b == self.readable_seq()[node as int],
    {
        self.readable[node]
    }

    /// What the external shape answered for `node`, if anything.
    pub fn external_answer(&self, node: usize) -> (r: Option<bool>)
        requires
            self.wf(),
            node < self.term_seq().len(),
        ensures
            r == self.external_seq()[node as int],
    {
        self.external[node]
    }

    /// The arcs that leave `node`: the positions of its triples, in the
    /// order the triples were added. `None` when the node is unreadable.
    pub fn neighs(&self, node: usize) -> (r: Option<Vec<usize>>)
        requires
            self.wf(),
            node < self.term_seq().len(),
        ensures
            r is Some <==> self.readable_seq()[node as int],
            r matches Some(v) ==> v@ == self.neighbours(node as int),
    {
        if !self.readable[node] {
            return None;
        }
        let mut out: Vec<usize> = Vec::new();
        let mut t: usize = 0;
        while t < self.triples.len()
            invariant
                t <= self.triples.len(),
                out@ == arcs_from(self.triples@, node as int, t as int),
            decreases self.triples.len() - t,
        {
            if self.triples[t].subject == node {
                out.push(t);
            }
            t += 1;
        }
        Some(out)
    }
}

/// Every arc that [`arcs_from`] lists is a triple among the first `upto`
/// and leaves `node`.
pub proof fn lemma_arcs_in_range(triples: Seq<Triple>, node: int, upto: int)
    requires
        0 <= upto <= triples.len(),
        upto <= usize::MAX,
    ensures
        forall|k: int|
            0 <= k < arcs_from(triples, node, upto).len() ==> {
                &&& (#[trigger] arcs_from(triples, node, upto)[k]) < upto
                &&& triples[arcs_from(triples, node, upto)[k] as int].subject == node
            },
    decreases upto,
{
    if upto > 0 {
        lemma_arcs_in_range(triples, node, upto - 1);
        let rest = arcs_from(triples, node, upto - 1);
        let all = arcs_from(triples, node, upto);
        assert forall|k: int| 0 <= k < all.len() implies (#[trigger] all[k]) < upto
            && triples[all[k] as int].subject == node by {
            if k < rest.len() {
                assert(all[k] == rest[k]);
                assert(rest[k] < upto - 1);
            } else {
                assert(triples[upto - 1].subject == node);
                assert(all == rest.push((upto - 1) as usize));
                assert(all[k] == (upto - 1) as usize);
            }
        }
    }
}

} // verus!
