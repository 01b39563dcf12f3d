//! The value nodes of a focus node: terms in the order they were found,
//! none of them twice.

use crate::component::values_view;
use crate::lookup::all_distinct;
use crate::term::{Term, TermView};
use vstd::prelude::*;

verus! {

/// The first `k` terms without those that occurred before.
pub open spec fn first_occurrences(s: Seq<TermView>, k: int) -> Seq<TermView>
    decreases k,
{
    if k <= 0 {
        Seq::empty()
    } else {
        let before = first_occurrences(s, k - 1);
        if before.contains(s[k - 1]) {
            before
        } else {
            before.push(s[k - 1])
        }
    }
}

/// The terms without repetition, each where it first occurs.
pub open spec fn without_repeats(s: Seq<TermView>) -> Seq<TermView> {
    first_occurrences(s, s.len() as int)
}

/// A set of value nodes, kept in the order the values were added.
#[derive(Debug)]
pub struct ValueNodes {
    nodes: Vec<Term>,
}

impl View for ValueNodes {
    type V = Seq<TermView>;

    closed spec fn view(&self) -> Seq<TermView> {
        values_view(self.nodes@)
    }
}

impl ValueNodes {
    #[verifier::type_invariant]
    spec fn inv(&self) -> bool {
        all_distinct(values_view(self.nodes@))
    }

    /// No value nodes.
    pub fn new() -> (v: ValueNodes)
        ensures
            v@ == Seq::<TermView>::empty(),
    {
        let v = ValueNodes { nodes: Vec::new() };
        assert(v@ =~= Seq::<TermView>::empty());
        v
    }

    /// The number of value nodes.
    pub fn len(&self) -> (n: usize)
        ensures
            n == self@.len(),
    {
        self.nodes.len()
    }

    /// The value nodes, none of which occurs twice.
    pub fn terms(&self) -> (v: &Vec<Term>)
        ensures
            values_view(v@) == self@,
            all_distinct(self@),
    {
        proof {
            use_type_invariant(self);
        }
        &self.nodes
    }

    /// The `k`-th value node, if there is one.
    pub fn get(&self, k: usize) -> (t: Option<&Term>)
        ensures
            t is Some <==> k < self@.len(),
            t matches Some(x) ==> x@ == self@[k as int],
    {
        if k < self.nodes.len() {
            Some(&self.nodes[k])
        } else {
            None
        }
    }

    /// Whether the term is among the value nodes.
    pub fn contains(&self, term: &Term) -> (b: bool)
        ensures
            b == self@.contains(term@),
    {
        let mut k: usize = 0;
        while k < self.nodes.len()
            invariant
                k <= self.nodes.len(),
                forall|j: int| 0 <= j < k ==> self@[j] != term@,
            decreases self.nodes.len() - k,
        {
            if self.nodes[k].same(term) {
                assert(self@[k as int] == term@);
                return true;
            }
            k += 1;
        }
        false
    }

    /// Adds a term unless it is among the value nodes already. Returns
    /// whether it was added.
    pub fn insert(&mut self, term: Term) -> (added: bool)
        ensures
            added == !old(self)@.contains(term@),
            final(self)@ == if added {
                old(self)@.push(term@)
            } else {
                old(self)@
            },
    {
        proof {
            use_type_invariant(&*self);
        }
        if self.contains(&term) {
            return false;
        }
        let ghost before = self@;
        let mut taken = ValueNodes::new();
        core::mem::swap(self, &mut taken);
        let ValueNodes { nodes } = taken;
        let mut nodes = nodes;
        nodes.push(term);
        proof {
            let after = values_view(nodes@);
            assert(after =~= before.push(term@));
            assert forall|i: int, j: int| 0 <= i < j < after.len() implies after[i] != after[j] by {
                if j == before.len() {
                    assert(before.contains(before[i]));
                }
            }
        }
        *self = ValueNodes { nodes };
        true
    }

    /// The terms as value nodes: a term that occurs more than once is
    /// taken where it first occurs.
    pub fn from_vec(terms: &Vec<Term>) -> (v: ValueNodes)
        ensures
            v@ == without_repeats(values_view(terms@)),
    {
        let ghost s = values_view(terms@);
        let mut v = ValueNodes::new();
        let mut k: usize = 0;
        while k < terms.len()
            invariant
                k <= terms.len(),
                s == values_view(terms@),
                v@ == first_occurrences(s, k as int),
            decreases terms.len() - k,
        {
            assert(s[k as int] == terms@[k as int]@);
            v.insert(terms[k].duplicate());
            k += 1;
        }
        v
    }
}

} // verus!
