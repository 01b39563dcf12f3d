//! Shape expressions and the compiled schema that owns them.
//!
//! A schema is an arena: expressions are stored in one table and refer to
//! their operands by position, always to an earlier position. Only a
//! reference to a named shape may point anywhere in the schema, which is
//! how recursive shapes are written.

use crate::label::{ShapeLabel, ShapeLabelIdx, ShapeLabelView};
use crate::lookup::{all_distinct, first_at, first_index, lemma_first_is_index, lemma_index_is_first};
use crate::term::{Term, TermKind};
use vstd::prelude::*;

verus! {

/// The kinds of node a node constraint can ask for.
#[derive(Debug, Clone, Copy, PartialEq, Eq, Structural)]
pub enum NodeKind {
    Iri,
    BNode,
    Literal,
    NonLiteral,
}

impl NodeKind {
    /// Whether a term of kind `k` is of this node kind.
    pub open spec fn admits(self, k: TermKind) -> bool {
        match self {
            NodeKind::Iri => k == TermKind::Iri,
            NodeKind::BNode => k == TermKind::BlankNode,
            NodeKind::Literal => k == TermKind::Literal,
            NodeKind::NonLiteral => k != TermKind::Literal,
        }
    }

    pub fn accepts(&self, k: TermKind) -> (b: bool)
        ensures
            b == self.admits(k),
    {
        match self {
            NodeKind::Iri => k == TermKind::Iri,
            NodeKind::BNode => k == TermKind::BlankNode,
            NodeKind::Literal => k == TermKind::Literal,
            NodeKind::NonLiteral => k != TermKind::Literal,
        }
    }
}

/// A constraint on a single term, decided without looking at the graph.
#[derive(Debug)]
pub struct NodeConstraint {
    pub node_kind: Option<NodeKind>,
    pub datatype: Option<String>,
    pub min_length: Option<usize>,
    pub max_length: Option<usize>,
    pub min_inclusive: Option<i128>,
    pub min_exclusive: Option<i128>,
    pub max_inclusive: Option<i128>,
    pub max_exclusive: Option<i128>,
    pub values: Option<Vec<Term>>,
}

impl NodeConstraint {
    /// The constraint that asks for nothing.
    pub fn any() -> (nc: NodeConstraint)
        ensures
            nc.node_kind is None,
            nc.datatype is None,
            nc.min_length is None,
            nc.max_length is None,
            nc.min_inclusive is None,
            nc.min_exclusive is None,
            nc.max_inclusive is None,
            nc.max_exclusive is None,
            nc.values is None,
    {
        NodeConstraint {
            node_kind: None,
            datatype: None,
            min_length: None,
            max_length: None,
            min_inclusive: None,
            min_exclusive: None,
            max_inclusive: None,
            max_exclusive: None,
            values: None,
        }
    }
}

/// One row of a shape's triple-constraint table: values of `predicate`
/// that conform to the expression at `value_expr`, between `min` and `max`
/// of them (`max` of `None` is unbounded).
#[derive(Debug)]
pub struct TripleConstraint {
    pub predicate: String,
    pub min: usize,
    pub max: Option<usize>,
    pub value_expr: usize,
}

/// The part of a shape that constrains a node's outgoing arcs.
#[derive(Debug)]
pub struct ShapeBody {
    pub closed: bool,
    pub extra: Vec<String>,
    pub constraints: Vec<TripleConstraint>,
    pub sem_acts: Vec<String>,
    pub annotations: Vec<String>,
}

/// A shape expression as it is declared: references name their target.
#[derive(Debug)]
pub enum RawShapeExpr {
    NodeConstraint(NodeConstraint),
    Shape(ShapeBody),
    ShapeAnd { exprs: Vec<usize> },
    ShapeOr { exprs: Vec<usize> },
    ShapeNot { expr: usize },
    Ref { label: ShapeLabel },
    ShapeExternal,
    Empty,
}

/// A shape expression of a compiled schema: references hold a handle.
#[derive(Debug)]
pub enum ShapeExpr {
    NodeConstraint(NodeConstraint),
    Shape(ShapeBody),
    ShapeAnd { exprs: Vec<usize> },
    ShapeOr { exprs: Vec<usize> },
    ShapeNot { expr: usize },
    Ref { idx: ShapeLabelIdx },
    ShapeExternal,
    Empty,
}

/// A named shape of a raw schema: its label and the position of its
/// expression.
#[derive(Debug)]
pub struct ShapeDecl {
    pub label: ShapeLabel,
    pub expr: usize,
}

/// Shape declarations as a parser hands them over.
#[derive(Debug)]
pub struct RawSchema {
    pub decls: Vec<ShapeDecl>,
    pub exprs: Vec<RawShapeExpr>,
}

/// Why a raw schema cannot be compiled.
#[derive(Debug)]
pub enum CompileError {
    /// Two declarations carry the label of the declaration at `decl`.
    DuplicateLabel { decl: usize },
    /// The declaration at `decl` names an expression that does not exist.
    DanglingDeclaration { decl: usize },
    /// The expression at `expr` has an operand that is not an earlier
    /// expression, or a triple constraint whose bounds are inverted.
    MalformedConstraint { expr: usize },
    /// The expression at `expr` refers to a shape that is not declared.
    UnresolvedReference { expr: usize, label: ShapeLabel },
}

/// All positions in `s` are below `bound`.
pub open spec fn all_below(s: Seq<usize>, bound: int) -> bool {
    forall|k: int| 0 <= k < s.len() ==> (#[trigger] s[k]) < bound
}

impl TripleConstraint {
    /// The bounds are in order and the value expression comes earlier than
    /// the shape at position `at`.
    pub open spec fn ok_at(self, at: int) -> bool {
        &&& self.value_expr < at
        &&& self.max matches Some(m) ==> self.min <= m
    }
}

impl ShapeBody {
    /// Every triple constraint is in order for a shape at position `at`.
    pub open spec fn ok_at(self, at: int) -> bool {
        forall|k: int|
            0 <= k < self.constraints@.len() ==> (#[trigger] self.constraints@[k]).ok_at(at)
    }
}

/// The labels of a list of declarations, in order.
pub open spec fn decl_labels(decls: Seq<ShapeDecl>) -> Seq<ShapeLabelView> {
    Seq::new(decls.len(), |k: int| decls[k].label@)
}

/// The views of a list of labels, in order.
pub open spec fn label_views(labels: Seq<ShapeLabel>) -> Seq<ShapeLabelView> {
    Seq::new(labels.len(), |k: int| labels[k]@)
}

/// The first position at which `label` occurs in `labels`, if any.
pub open spec fn index_of_label(labels: Seq<ShapeLabelView>, label: ShapeLabelView) -> Option<int> {
    first_index(labels, label)
}

/// No label occurs twice.
pub open spec fn labels_distinct(labels: Seq<ShapeLabelView>) -> bool {
    all_distinct(labels)
}

impl RawShapeExpr {
    /// The operands of the expression at position `at` are earlier
    /// expressions and its triple constraints are in order.
    pub open spec fn structure_ok(self, at: int) -> bool {
        match self {
            RawShapeExpr::Shape(body) => body.ok_at(at),
            RawShapeExpr::ShapeAnd { exprs } => all_below(exprs@, at),
            RawShapeExpr::ShapeOr { exprs } => all_below(exprs@, at),
            RawShapeExpr::ShapeNot { expr } => expr < at,
            _ => true,
        }
    }

    /// A reference names a declared shape.
    pub open spec fn resolvable(self, labels: Seq<ShapeLabelView>) -> bool {
        self matches RawShapeExpr::Ref { label } ==> index_of_label(labels, label@) is Some
    }

    /// The compiled form of the expression: the same content, a reference
    /// turned into the handle of the first declaration with its label.
    pub open spec fn resolved(self, labels: Seq<ShapeLabelView>) -> ShapeExpr {
        match self {
            RawShapeExpr::NodeConstraint(nc) => ShapeExpr::NodeConstraint(nc),
            RawShapeExpr::Shape(body) => ShapeExpr::Shape(body),
            RawShapeExpr::ShapeAnd { exprs } => ShapeExpr::ShapeAnd { exprs },
            RawShapeExpr::ShapeOr { exprs } => ShapeExpr::ShapeOr { exprs },
            RawShapeExpr::ShapeNot { expr } => ShapeExpr::ShapeNot { expr },
            RawShapeExpr::Ref { label } => ShapeExpr::Ref {
                idx: ShapeLabelIdx {
                    index: index_of_label(labels, label@).unwrap() as usize,
                },
            },
            RawShapeExpr::ShapeExternal => ShapeExpr::ShapeExternal,
            RawShapeExpr::Empty => ShapeExpr::Empty,
        }
    }
}

impl ShapeExpr {
    /// The expression at position `at` of a schema with `shapes` named
    /// shapes is in order: operands earlier, references in range.
    pub open spec fn ok_at(self, at: int, shapes: int) -> bool {
        match self {
            ShapeExpr::Shape(body) => body.ok_at(at),
            ShapeExpr::ShapeAnd { exprs } => all_below(exprs@, at),
            ShapeExpr::ShapeOr { exprs } => all_below(exprs@, at),
            ShapeExpr::ShapeNot { expr } => expr < at,
            ShapeExpr::Ref { idx } => idx.index < shapes,
            _ => true,
        }
    }
}


/// Whether every position stored in `v` is below `bound`.
pub fn indices_below(v: &Vec<usize>, bound: usize) -> (b: bool)
    ensures
        b == all_below(v@, bound as int),
{
    let mut k: usize = 0;
    while k < v.len()
        invariant
            k <= v.len(),
            forall|j: int| 0 <= j < k ==> (#[trigger] v@[j]) < bound,
        decreases v.len() - k,
    {
        if v[k] >= bound {
            return false;
        }
        k += 1;
    }
    true
}

impl ShapeBody {
    /// Whether every triple constraint is in order for a shape at `at`.
    pub fn check_at(&self, at: usize) -> (b: bool)
        ensures
            b == self.ok_at(at as int),
    {
        let mut k: usize = 0;
        while k < self.constraints.len()
            invariant
                k <= self.constraints.len(),
                forall|j: int| 0 <= j < k ==> (#[trigger] self.constraints@[j]).ok_at(at as int),
            decreases self.constraints.len() - k,
        {
            let tc = &self.constraints[k];
            let bounds_ok = match tc.max {
                Some(m) => tc.min <= m,
                None => true,
            };
            if tc.value_expr >= at || !bounds_ok {
                assert(!self.constraints@[k as int].ok_at(at as int));
                return false;
            }
            k += 1;
        }
        true
    }
}

impl RawShapeExpr {
    /// Whether the expression's operands and bounds are in order at `at`.
    pub fn check_structure(&self, at: usize) -> (b: bool)
        ensures
            b == self.structure_ok(at as int),
    {
        match self {
            RawShapeExpr::Shape(body) => body.check_at(at),
            RawShapeExpr::ShapeAnd { exprs } => indices_below(exprs, at),
            RawShapeExpr::ShapeOr { exprs } => indices_below(exprs, at),
            RawShapeExpr::ShapeNot { expr } => *expr < at,
            _ => true,
        }
    }
}

/// Looks a label up among `labels`: the first position that holds it.
pub fn find_label_in(labels: &Vec<ShapeLabel>, label: &ShapeLabel) -> (r: Option<usize>)
    ensures
        r is Some <==> index_of_label(label_views(labels@), label@) is Some,
        r matches Some(k) ==> index_of_label(label_views(labels@), label@) == Some(k as int),
{
    let ghost views = label_views(labels@);
    let mut k: usize = 0;
    while k < labels.len()
        invariant
            k <= labels.len(),
            views == label_views(labels@),
            forall|j: int| 0 <= j < k ==> views[j] != label@,
        decreases labels.len() - k,
    {
        if labels[k].same(label) {
            proof {
                assert(views[k as int] == label@);
                assert(first_at(views, label@, k as int));
                lemma_first_is_index(views, label@, k as int);
            }
            return Some(k);
        }
        k += 1;
    }
    proof {
        if index_of_label(views, label@) is Some {
            lemma_index_is_first(views, label@);
        }
    }
    None
}

} // verus!
