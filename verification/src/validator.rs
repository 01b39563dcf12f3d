//! The validator: a compiled schema and the memo table of a run.

use crate::compiled::CompiledSchema;
use crate::engine::{check, check_named, ready};
use crate::graph::{Graph, GraphView};
use crate::label::{ShapeLabel, ShapeLabelIdx};
use crate::lookup::first_index;
use crate::report::{EvaluationError, Reason, Verdict};
use crate::schema::index_of_label;
use crate::semantics::{eval, eval_named};
use crate::state::{
    blank_row, grown, has_width, lemma_with_cell, unknown_total, with_cell, Status, Table,
    ValidationState,
};
use crate::term::Term;
use vstd::prelude::*;

verus! {

/// Why a validation request could not be answered with a verdict.
#[derive(Debug)]
pub enum ValidatorError {
    /// The schema declares no shape with the label.
    NotFoundShapeLabel { shape: ShapeLabel },
    /// The schema has no expression at the position.
    UnknownExpression { expr: usize },
    /// The graph or an external shape failed to answer.
    Evaluation(EvaluationError),
}

/// Whether what was returned is the mathematical result: a verdict with
/// the same reasons, conforming exactly when there are none, or the same
/// evaluation error.
pub open spec fn answers(
    r: Result<Verdict, ValidatorError>,
    result: Result<Seq<Reason>, EvaluationError>,
) -> bool {
    match result {
        Ok(reasons) => r matches Ok(v) && v@ == reasons && (v is Conforms <==> reasons.len() == 0),
        Err(x) => r matches Err(ValidatorError::Evaluation(y)) && y == x,
    }
}

/// The memo table that a term outside the graph is validated on: one row
/// of unknown cells, which is dropped afterwards.
pub open spec fn lone_table(width: int) -> Table {
    seq![blank_row(width)]
}

/// Whether a result is a verdict of conformance; nothing for a failure.
pub open spec fn decision_of(result: Result<Seq<Reason>, EvaluationError>) -> Option<bool> {
    match result {
        Ok(reasons) => Some(reasons.len() == 0),
        Err(_) => None,
    }
}

/// A table with the decisions taken on it.
pub struct Decided {
    pub state: Table,
    pub decisions: Seq<Option<bool>>,
}

/// Whether the node conforms to each of the shapes from the `k`-th on,
/// validated one after the other on the table that the one before left.
/// A handle that names no shape of the schema gets no decision.
pub open spec fn decided(
    sc: CompiledSchema,
    g: GraphView,
    st: Table,
    node: usize,
    shapes: Seq<ShapeLabelIdx>,
    k: int,
) -> Decided
    decreases shapes.len() - k,
{
    if k < 0 || k >= shapes.len() {
        Decided { state: st, decisions: Seq::empty() }
    } else {
        let idx = shapes[k].index;
        if idx >= sc.label_seq().len() {
            let rest = decided(sc, g, st, node, shapes, k + 1);
            Decided { state: rest.state, decisions: seq![None] + rest.decisions }
        } else {
            let s = eval_named(
                sc,
                g,
                st,
                node,
                sc.root_seq()[idx as int],
                idx,
                unknown_total(st),
            );
            let rest = decided(sc, g, s.state, node, shapes, k + 1);
            Decided {
                state: rest.state,
                decisions: seq![decision_of(s.result)] + rest.decisions,
            }
        }
    }
}

/// Validates nodes of a graph against the shapes of one schema and
/// remembers its decisions.
pub struct Validator {
    schema: CompiledSchema,
    validation_state: ValidationState,
}

impl Validator {
    /// The schema of the validator.
    pub closed spec fn schema_view(&self) -> CompiledSchema {
        self.schema
    }

    /// The memo table of the run.
    pub closed spec fn table(&self) -> Table {
        self.validation_state@
    }

    /// The schema is in order and the table has a cell for each of its
    /// shapes in every row.
    pub open spec fn wf(&self) -> bool {
        &&& self.schema_view().wf()
        &&& has_width(self.table(), self.schema_view().label_seq().len() as int)
    }

    /// The table as a validation on `g` starts from it: with a row for
    /// every node of the graph.
    pub open spec fn table_for(&self, g: Graph) -> Table {
        grown(
            self.table(),
            g.term_seq().len() as int,
            self.schema_view().label_seq().len() as int,
        )
    }

    /// A validator with an empty memo table.
    pub fn new(schema: CompiledSchema) -> (v: Validator)
        ensures
            v.wf(),
            v.schema_view() == schema,
            v.table().len() == 0,
    {
        // Asking the schema for a count brings what holds of every schema.
        let _ = schema.shape_count();
        Validator { schema, validation_state: ValidationState::new() }
    }

    /// The schema of the validator.
    pub fn schema(&self) -> (s: &CompiledSchema)
        ensures
            *s == self.schema_view(),
    {
        &self.schema
    }

    /// What the run knows of a node and a shape; unknown for a pair that
    /// the table does not cover.
    pub fn status(&self, node: usize, shape: ShapeLabelIdx) -> (s: Status)
        ensures
            s == if node < self.table().len() && shape.index < self.table()[node as int].len() {
                self.table()[node as int][shape.index as int]
            } else {
                Status::Unknown
            },
    {
        self.validation_state.lookup(node, shape.index)
    }

    /// Forgets every decision: the next validation starts a new run.
    pub fn reset(&mut self)
        requires
            old(self).wf(),
        ensures
            final(self).wf(),
            final(self).schema_view() == old(self).schema_view(),
            final(self).table().len() == 0,
    {
        self.validation_state = ValidationState::new();
    }

    /// Records that the node is being validated against the shape: an
    /// unknown pair becomes pending. Returns whether it did. A shape that
    /// the schema does not have, or a pair that is pending or decided,
    /// changes nothing but the number of rows.
    pub fn add_current(&mut self, node: usize, shape: ShapeLabelIdx) -> (added: bool)
        requires
            old(self).wf(),
        ensures
            final(self).wf(),
            final(self).schema_view() == old(self).schema_view(),
            ({
                let width = old(self).schema_view().label_seq().len() as int;
                let rows = grown(old(self).table(), node + 1, width);
                if shape.index >= width || node == usize::MAX {
                    !added && final(self).table() == old(self).table()
                } else if rows[node as int][shape.index as int] == Status::Unknown {
                    added && final(self).table() == with_cell(
                        rows,
                        node as int,
                        shape.index as int,
                        Status::Pending,
                    )
                } else {
                    !added && final(self).table() == rows
                }
            }),
    {
        let width = self.schema.shape_count();
        if shape.index >= width || node == usize::MAX {
            return false;
        }
        self.validation_state.grow(node + 1, width);
        if self.validation_state.get(node, shape.index) == Status::Unknown {
            proof {
                lemma_with_cell(self.table(), node as int, shape.index as int, Status::Pending);
            }
            self.validation_state.set(node, shape.index, Status::Pending);
            true
        } else {
            false
        }
    }

    /// The handle of a term in the graph, if the graph holds it.
    pub fn get_rdf_node(&self, node: &Term, graph: &Graph) -> (r: Option<usize>)
        ensures
            r is Some <==> first_index(graph.term_seq(), node@) is Some,
            r matches Some(k) ==> first_index(graph.term_seq(), node@) == Some(k as int) && k
                < graph.term_seq().len(),
    {
        graph.find_node(node)
    }

    /// The arcs that leave a node of the graph, as positions of triples,
    /// or the error that the node cannot be read.
    pub fn neighs(&self, node: usize, graph: &Graph) -> (r: Result<Vec<usize>, EvaluationError>)
        requires
            graph.wf(),
            node < graph.term_seq().len(),
        ensures
            r is Ok <==> graph.readable_seq()[node as int],
            r matches Ok(v) ==> v@ == graph.neighbours(node as int),
            r matches Err(x) ==> x == (EvaluationError::Unreadable { node }),
    {
        match graph.neighs(node) {
            Some(v) => Ok(v),
            None => Err(EvaluationError::Unreadable { node }),
        }
    }

    /// The graph that holds the term alone.
    fn lone_graph(node: &Term) -> (g: Graph)
        ensures
            g.wf(),
            g@ == GraphView::lone(node@),
    {
        let mut g = Graph::new();
        g.add_node(node.duplicate());
        assert(g@.terms =~= seq![node@]);
        assert(g@.triples =~= Seq::empty());
        assert(g@.readable =~= seq![true]);
        assert(g@.external =~= seq![None]);
        g
    }

    /// A table of one row of unknown cells.
    fn lone_state(width: usize) -> (s: ValidationState)
        ensures
            s@ == lone_table(width as int),
    {
        let mut s = ValidationState::new();
        s.grow(1, width);
        assert(s@ =~= lone_table(width as int));
        s
    }

    /// Validates a node against the expression at position `se` of the
    /// schema. The verdict is what [`eval`] says for the table grown to the
    /// graph, and the table afterwards is the one that it leaves. A term
    /// that the graph does not hold is a node without arcs: it is
    /// validated as the only node of a graph of its own, on a table of its
    /// own, and the validator's table stays as it is.
    pub fn validate_node_shape_expr(&mut self, node: &Term, se: usize, graph: &Graph) -> (r: Result<
        Verdict,
        ValidatorError,
    >)
        requires
            old(self).wf(),
            graph.wf(),
        ensures
            final(self).wf(),
            final(self).schema_view() == old(self).schema_view(),
            ({
                let sc = old(self).schema_view();
                let st = old(self).table_for(*graph);
                if se >= sc.expr_seq().len() {
                    &&& r matches Err(ValidatorError::UnknownExpression { expr })
                    &&& expr == se
                    &&& final(self).table() == old(self).table()
                } else {
                    match first_index(graph.term_seq(), node@) {
                        None => {
                            let alone = lone_table(sc.label_seq().len() as int);
                            let s = eval(
                                sc,
                                GraphView::lone(node@),
                                alone,
                                0,
                                se,
                                unknown_total(alone),
                            );
                            &&& final(self).table() == old(self).table()
                            &&& answers(r, s.result)
                        },
                        Some(n) => {
                            let s = eval(sc, graph@, st, n as usize, se, unknown_total(st));
                            &&& final(self).table() == s.state
                            &&& answers(r, s.result)
                        },
                    }
                }
            }),
    {
        if se >= self.schema.expr_count() {
            return Err(ValidatorError::UnknownExpression { expr: se });
        }
        let width = self.schema.shape_count();
        let n = match graph.find_node(node) {
            Some(n) => n,
            None => {
                let alone = Self::lone_graph(node);
                let mut table = Self::lone_state(width);
                let ghost depth = unknown_total(table@);
                return match check(&self.schema, &alone, &mut table, 0, se, Ghost(depth)) {
                    Ok(reasons) => Ok(Verdict::from_reasons(reasons)),
                    Err(x) => Err(ValidatorError::Evaluation(x)),
                };
            },
        };
        self.validation_state.grow(graph.node_count(), width);
        let ghost depth = unknown_total(self.validation_state@);
        match check(&self.schema, graph, &mut self.validation_state, n, se, Ghost(depth)) {
            Ok(reasons) => Ok(Verdict::from_reasons(reasons)),
            Err(x) => Err(ValidatorError::Evaluation(x)),
        }
    }

    /// Validates a node against the shape with the given label. The
    /// verdict is what [`eval_named`] says for the table grown to the
    /// graph; after a verdict the pair is decided in the table. A term
    /// that the graph does not hold is a node without arcs: it is
    /// validated as the only node of a graph of its own, on a table of its
    /// own, and the validator's table stays as it is.
    pub fn validate_node_shape(&mut self, node: &Term, shape: &ShapeLabel, graph: &Graph) -> (r:
        Result<Verdict, ValidatorError>)
        requires
            old(self).wf(),
            graph.wf(),
        ensures
            final(self).wf(),
            final(self).schema_view() == old(self).schema_view(),
            ({
                let sc = old(self).schema_view();
                let st = old(self).table_for(*graph);
                match index_of_label(sc.label_seq(), shape@) {
                    None => {
                        &&& r matches Err(ValidatorError::NotFoundShapeLabel { shape: l })
                        &&& l@ == shape@
                        &&& final(self).table() == old(self).table()
                    },
                    Some(idx) => match first_index(graph.term_seq(), node@) {
                        None => {
                            let alone = lone_table(sc.label_seq().len() as int);
                            let s = eval_named(
                                sc,
                                GraphView::lone(node@),
                                alone,
                                0,
                                sc.root_seq()[idx],
                                idx as usize,
                                unknown_total(alone),
                            );
                            &&& final(self).table() == old(self).table()
                            &&& answers(r, s.result)
                        },
                        Some(n) => {
                            let s = eval_named(
                                sc,
                                graph@,
                                st,
                                n as usize,
                                sc.root_seq()[idx],
                                idx as usize,
                                unknown_total(st),
                            );
                            &&& final(self).table() == s.state
                            &&& answers(r, s.result)
                            &&& r is Ok ==> st[n][idx] == Status::Pending
                                || final(self).table()[n][idx] == (if s.conforms() {
                                Status::Conforms
                            } else {
                                Status::Violates
                            })
                        },
                    },
                }
            }),
    {
        let (idx, root) = match self.schema.find_label(shape) {
            Some(found) => found,
            None => {
                return Err(ValidatorError::NotFoundShapeLabel { shape: shape.duplicate() });
            },
        };
        let width = self.schema.shape_count();
        let n = match graph.find_node(node) {
            Some(n) => n,
            None => {
                let alone = Self::lone_graph(node);
                let mut table = Self::lone_state(width);
                let ghost depth = unknown_total(table@);
                return match check_named(
                    &self.schema,
                    &alone,
                    &mut table,
                    0,
                    root,
                    idx.index,
                    Ghost(depth),
                ) {
                    Ok(reasons) => Ok(Verdict::from_reasons(reasons)),
                    Err(x) => Err(ValidatorError::Evaluation(x)),
                };
            },
        };
        self.validation_state.grow(graph.node_count(), width);
        let ghost depth = unknown_total(self.validation_state@);
        match check_named(
            &self.schema,
            graph,
            &mut self.validation_state,
            n,
            root,
            idx.index,
            Ghost(depth),
        ) {
            Ok(reasons) => Ok(Verdict::from_reasons(reasons)),
            Err(x) => Err(ValidatorError::Evaluation(x)),
        }
    }

    /// Decides for a node of the graph whether it conforms to each of the
    /// shapes, in order: what a logical component judges the node by.
    pub fn conformance(&mut self, node: usize, shapes: &Vec<ShapeLabelIdx>, graph: &Graph) -> (out:
        Vec<Option<bool>>)
        requires
            old(self).wf(),
            graph.wf(),
            node < graph.term_seq().len(),
        ensures
            final(self).wf(),
            final(self).schema_view() == old(self).schema_view(),
            final(self).table() == decided(
                old(self).schema_view(),
                graph@,
                old(self).table_for(*graph),
                node,
                shapes@,
                0,
            ).state,
            out@ == decided(
                old(self).schema_view(),
                graph@,
                old(self).table_for(*graph),
                node,
                shapes@,
                0,
            ).decisions,
    {
        let width = self.schema.shape_count();
        self.validation_state.grow(graph.node_count(), width);
        let ghost sc = self.schema;
        let ghost target = decided(sc, graph@, self.validation_state@, node, shapes@, 0);
        let mut out: Vec<Option<bool>> = Vec::new();
        let mut k: usize = 0;
        while k < shapes.len()
            invariant
                k <= shapes.len(),
                sc == self.schema,
                width == sc.label_seq().len(),
                ready(sc, *graph, self.validation_state@),
                node < graph.term_seq().len(),
                target.state == decided(sc, graph@, self.validation_state@, node, shapes@, k as int).state,
                target.decisions == out@ + decided(
                    sc,
                    graph@,
                    self.validation_state@,
                    node,
                    shapes@,
                    k as int,
                ).decisions,
            decreases shapes.len() - k,
        {
            let idx = shapes[k].index;
            let ghost before = out@;
            let ghost here = decided(sc, graph@, self.validation_state@, node, shapes@, k as int);
            if idx >= width {
                out.push(None);
                assert(out@ + decided(
                    sc,
                    graph@,
                    self.validation_state@,
                    node,
                    shapes@,
                    k + 1,
                ).decisions =~= before + here.decisions);
            } else {
                let root = self.schema.root(shapes[k]);
                let ghost st0 = self.validation_state@;
                let ghost depth = unknown_total(st0);
                let r = check_named(
                    &self.schema,
                    graph,
                    &mut self.validation_state,
                    node,
                    root,
                    idx,
                    Ghost(depth),
                );
                let d = match r {
                    Ok(reasons) => Some(reasons.len() == 0),
                    Err(_) => None,
                };
                out.push(d);
                assert(out@ + decided(
                    sc,
                    graph@,
                    self.validation_state@,
                    node,
                    shapes@,
                    k + 1,
                ).decisions =~= before + here.decisions);
            }
            k += 1;
        }
        assert(out@ =~= target.decisions);
        out
    }
}

} // verus!
