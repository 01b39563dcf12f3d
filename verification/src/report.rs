//! Violations, verdicts and the errors that are not violations.

use vstd::prelude::*;

verus! {

/// What a violation is about.
#[derive(Debug, Clone, Copy, PartialEq, Eq, Structural)]
pub enum ReasonKind {
    /// The node is not of the node kind asked for.
    NodeKind,
    /// The node is no literal of the datatype asked for.
    Datatype,
    /// The node's text is shorter than the minimum, or it is a blank node.
    MinLength,
    /// The node's text is longer than the maximum, or it is a blank node.
    MaxLength,
    /// The node is no literal or its value is less than the minimum.
    MinInclusive,
    /// The node is no literal or its value is the minimum at most.
    MinExclusive,
    /// The node is no literal or its value is greater than the maximum.
    MaxInclusive,
    /// The node is no literal or its value is the maximum at least.
    MaxExclusive,
    /// The node is none of the values asked for.
    ValueSet,
    /// The arc's predicate is constrained, and no constraint takes its
    /// value.
    Unmatched { triple: usize },
    /// The arc's value fits the constraint, which is full already.
    MaxExceeded { triple: usize, constraint: usize },
    /// The arc's predicate is not allowed by a closed shape.
    Closed { triple: usize },
    /// The constraint has fewer values than its minimum.
    MinUnmet { constraint: usize },
    /// The negated expression is satisfied.
    Negation,
    /// None of the alternatives is satisfied.
    NoAlternative,
    /// The node does not conform to the named shape.
    ShapeRef { shape: usize },
    /// The external shape refused the node.
    External,
}

/// One violation: the focus node, the offending value where there is one,
/// the expression that was violated and what kind of violation it is.
#[derive(Debug, Clone, Copy, PartialEq, Eq, Structural)]
pub struct Reason {
    pub focus: usize,
    pub value: Option<usize>,
    pub expr: usize,
    pub kind: ReasonKind,
}

/// A failure to evaluate, which says nothing about conformance.
#[derive(Debug, Clone, Copy, PartialEq, Eq, Structural)]
pub enum EvaluationError {
    /// The arcs of the node could not be read.
    Unreadable { node: usize },
    /// No external answer is known for the node.
    ExternalUnavailable { node: usize },
    /// The node is a literal that a range facet cannot judge: its lexical
    /// form writes no integer that the machine can hold.
    Unsupported { node: usize },
}

/// The outcome of validating a node against a shape.
#[derive(Debug)]
pub enum Verdict {
    Conforms,
    Violates(Vec<Reason>),
}

impl View for Verdict {
    type V = Seq<Reason>;

    /// The violations that were found; a conforming node has none.
    open spec fn view(&self) -> Seq<Reason> {
        match *self {
            Verdict::Conforms => Seq::empty(),
            Verdict::Violates(reasons) => reasons@,
        }
    }
}

impl Verdict {
    /// The verdict that a list of violations amounts to.
    pub fn from_reasons(reasons: Vec<Reason>) -> (v: Verdict)
        ensures
            v@ == reasons@,
            v is Conforms <==> reasons@.len() == 0,
    {
        if reasons.len() == 0 {
            Verdict::Conforms
        } else {
            Verdict::Violates(reasons)
        }
    }

    pub fn conforms(&self) -> (b: bool)
        ensures
            b == (self is Conforms),
    {
        matches!(self, Verdict::Conforms)
    }
}

impl ReasonKind {
    /// The message template of the kind, as text.
    pub open spec fn template(self) -> Seq<char> {
        match self {
            ReasonKind::NodeKind => "node kind does not match"@,
            ReasonKind::Datatype => "datatype does not match"@,
            ReasonKind::MinLength => "text is shorter than the minimum length"@,
            ReasonKind::MaxLength => "text is longer than the maximum length"@,
            ReasonKind::MinInclusive => "value is less than the minimum"@,
            ReasonKind::MinExclusive => "value is not greater than the minimum"@,
            ReasonKind::MaxInclusive => "value is greater than the maximum"@,
            ReasonKind::MaxExclusive => "value is not less than the maximum"@,
            ReasonKind::ValueSet => "node is not among the allowed values"@,
            ReasonKind::Unmatched { .. } => "value matches no triple constraint"@,
            ReasonKind::MaxExceeded { .. } => "maximum cardinality exceeded"@,
            ReasonKind::Closed { .. } => "predicate not allowed by closed shape"@,
            ReasonKind::MinUnmet { .. } => "minimum cardinality not reached"@,
            ReasonKind::Negation => "negated shape is satisfied"@,
            ReasonKind::NoAlternative => "no alternative is satisfied"@,
            ReasonKind::ShapeRef { .. } => "node does not conform to shape"@,
            ReasonKind::External => "external shape refused the node"@,
        }
    }

    /// The message template of the kind.
    pub fn message(&self) -> (m: &'static str)
        ensures
            m@ == self.template(),
    {
        match self {
            ReasonKind::NodeKind => "node kind does not match",
            ReasonKind::Datatype => "datatype does not match",
            ReasonKind::MinLength => "text is shorter than the minimum length",
            ReasonKind::MaxLength => "text is longer than the maximum length",
            ReasonKind::MinInclusive => "value is less than the minimum",
            ReasonKind::MinExclusive => "value is not greater than the minimum",
            ReasonKind::MaxInclusive => "value is greater than the maximum",
            ReasonKind::MaxExclusive => "value is not less than the maximum",
            ReasonKind::ValueSet => "node is not among the allowed values",
            ReasonKind::Unmatched { .. } => "value matches no triple constraint",
            ReasonKind::MaxExceeded { .. } => "maximum cardinality exceeded",
            ReasonKind::Closed { .. } => "predicate not allowed by closed shape",
            ReasonKind::MinUnmet { .. } => "minimum cardinality not reached",
            ReasonKind::Negation => "negated shape is satisfied",
            ReasonKind::NoAlternative => "no alternative is satisfied",
            ReasonKind::ShapeRef { .. } => "node does not conform to shape",
            ReasonKind::External => "external shape refused the node",
        }
    }
}

} // verus!
