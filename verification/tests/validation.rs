use shape_validation::compiled::{compile, CompiledSchema};
use shape_validation::graph::Graph;
use shape_validation::label::{ShapeLabel, ShapeLabelIdx};
use shape_validation::report::{EvaluationError, Reason, ReasonKind, Verdict};
use shape_validation::schema::{
    CompileError, NodeConstraint, NodeKind, RawSchema, RawShapeExpr, ShapeBody, ShapeDecl,
    TripleConstraint,
};
use shape_validation::state::Status;
use shape_validation::term::Term;
use shape_validation::validator::{Validator, ValidatorError};

const XSD_STRING: &str = "http://www.w3.org/2001/XMLSchema#string";
const XSD_INTEGER: &str = "http://www.w3.org/2001/XMLSchema#integer";
const NAME: &str = "http://example.org/name";
const KNOWS: &str = "http://example.org/knows";
const AGE: &str = "http://example.org/age";

fn iri(s: &str) -> Term {
    Term::iri(s)
}

fn label(s: &str) -> ShapeLabel {
    ShapeLabel::from_iri_str(s).unwrap()
}

fn string_constraint() -> RawShapeExpr {
    RawShapeExpr::NodeConstraint(NodeConstraint {
        datatype: Some(XSD_STRING.to_string()),
        ..NodeConstraint::any()
    })
}

fn constraint(predicate: &str, min: usize, max: Option<usize>, value_expr: usize) -> TripleConstraint {
    TripleConstraint { predicate: predicate.to_string(), min, max, value_expr }
}

fn shape(closed: bool, extra: Vec<&str>, constraints: Vec<TripleConstraint>) -> RawShapeExpr {
    RawShapeExpr::Shape(ShapeBody {
        closed,
        extra: extra.into_iter().map(|s| s.to_string()).collect(),
        constraints,
        sem_acts: Vec::new(),
        annotations: Vec::new(),
    })
}

fn decl(name: &str, expr: usize) -> ShapeDecl {
    ShapeDecl { label: label(name), expr }
}

/// shape Person: { :name xsd:string [1..1] }
fn person_schema(closed: bool) -> CompiledSchema {
    let raw = RawSchema {
        decls: vec![decl("http://example.org/Person", 1)],
        exprs: vec![
            string_constraint(),
            shape(closed, vec![], vec![constraint(NAME, 1, Some(1), 0)]),
        ],
    };
    compile(raw).unwrap()
}

fn alice() -> Term {
    iri("http://example.org/alice")
}

fn bob() -> Term {
    iri("http://example.org/bob")
}

fn reasons(v: &Verdict) -> Vec<Reason> {
    match v {
        Verdict::Conforms => Vec::new(),
        Verdict::Violates(r) => r.clone(),
    }
}

#[test]
fn end_to_end_one_name_conforms() {
    let mut g = Graph::new();
    assert!(g.add_triple(alice(), NAME, Term::literal("Alice", XSD_STRING)));
    let mut v = Validator::new(person_schema(false));
    let verdict = v
        .validate_node_shape(&alice(), &label("http://example.org/Person"), &g)
        .unwrap();
    assert!(verdict.conforms());
    assert!(matches!(verdict, Verdict::Conforms));
}

#[test]
fn end_to_end_two_names_violates() {
    let mut g = Graph::new();
    g.add_triple(alice(), NAME, Term::literal("Alice", XSD_STRING));
    g.add_triple(alice(), NAME, Term::literal("Bob", XSD_STRING));
    let mut v = Validator::new(person_schema(false));
    let verdict = v
        .validate_node_shape(&alice(), &label("http://example.org/Person"), &g)
        .unwrap();
    assert!(!verdict.conforms());
    // Through a named shape the verdict names the shape that is violated.
    assert_eq!(
        reasons(&verdict),
        vec![Reason { focus: 0, value: None, expr: 1, kind: ReasonKind::ShapeRef { shape: 0 } }]
    );
    // Against the shape's expression the verdict says which arc was too many.
    let mut fresh = Validator::new(person_schema(false));
    let direct = fresh.validate_node_shape_expr(&alice(), 1, &g).unwrap();
    assert_eq!(
        reasons(&direct),
        vec![Reason {
            focus: 0,
            value: Some(2),
            expr: 1,
            kind: ReasonKind::MaxExceeded { triple: 1, constraint: 0 },
        }]
    );
}

#[test]
fn multiplicity_zero_values_violates() {
    let mut g = Graph::new();
    g.add_node(alice());
    let mut v = Validator::new(person_schema(false));
    let verdict = v.validate_node_shape_expr(&alice(), 1, &g).unwrap();
    assert_eq!(
        reasons(&verdict),
        vec![Reason { focus: 0, value: None, expr: 1, kind: ReasonKind::MinUnmet { constraint: 0 } }]
    );
}

#[test]
fn multiplicity_value_of_wrong_shape_violates() {
    let mut g = Graph::new();
    g.add_triple(alice(), NAME, Term::literal("42", XSD_INTEGER));
    let mut v = Validator::new(person_schema(false));
    let verdict = v.validate_node_shape_expr(&alice(), 1, &g).unwrap();
    assert_eq!(
        reasons(&verdict),
        vec![
            Reason { focus: 0, value: Some(1), expr: 1, kind: ReasonKind::Unmatched { triple: 0 } },
            Reason { focus: 0, value: None, expr: 1, kind: ReasonKind::MinUnmet { constraint: 0 } },
        ]
    );
}

#[test]
fn closed_shape_rejects_other_predicate() {
    let mut g = Graph::new();
    g.add_triple(alice(), NAME, Term::literal("Alice", XSD_STRING));
    g.add_triple(alice(), AGE, Term::literal("42", XSD_INTEGER));
    let mut closed = Validator::new(person_schema(true));
    let verdict = closed.validate_node_shape_expr(&alice(), 1, &g).unwrap();
    assert_eq!(
        reasons(&verdict),
        vec![Reason { focus: 0, value: Some(2), expr: 1, kind: ReasonKind::Closed { triple: 1 } }]
    );
    let mut open = Validator::new(person_schema(false));
    assert!(open.validate_node_shape_expr(&alice(), 1, &g).unwrap().conforms());
}

#[test]
fn extra_predicate_excuses_unmatched_value() {
    let raw = RawSchema {
        decls: vec![decl("http://example.org/Person", 1)],
        exprs: vec![
            string_constraint(),
            shape(true, vec![NAME, AGE], vec![constraint(NAME, 1, Some(1), 0)]),
        ],
    };
    let mut g = Graph::new();
    g.add_triple(alice(), NAME, Term::literal("Alice", XSD_STRING));
    g.add_triple(alice(), NAME, Term::literal("7", XSD_INTEGER));
    g.add_triple(alice(), AGE, Term::literal("42", XSD_INTEGER));
    let mut v = Validator::new(compile(raw).unwrap());
    assert!(v.validate_node_shape_expr(&alice(), 1, &g).unwrap().conforms());
}

#[test]
fn same_predicate_in_two_constraints_is_matched_by_value() {
    // { :name xsd:string [1..1] ; :name xsd:integer [1..1] }
    let raw = RawSchema {
        decls: vec![decl("http://example.org/S", 2)],
        exprs: vec![
            string_constraint(),
            RawShapeExpr::NodeConstraint(NodeConstraint {
                datatype: Some(XSD_INTEGER.to_string()),
                ..NodeConstraint::any()
            }),
            shape(
                false,
                vec![],
                vec![constraint(NAME, 1, Some(1), 0), constraint(NAME, 1, Some(1), 1)],
            ),
        ],
    };
    let mut g = Graph::new();
    g.add_triple(alice(), NAME, Term::literal("7", XSD_INTEGER));
    g.add_triple(alice(), NAME, Term::literal("Alice", XSD_STRING));
    let mut v = Validator::new(compile(raw).unwrap());
    assert!(v.validate_node_shape_expr(&alice(), 2, &g).unwrap().conforms());
}

#[test]
fn empty_shape_conforms() {
    let raw = RawSchema {
        decls: vec![decl("http://example.org/Any", 0)],
        exprs: vec![RawShapeExpr::Empty],
    };
    let mut g = Graph::new();
    g.add_node(alice());
    g.add_node(Term::blank_node("b0"));
    g.add_node(Term::literal("x", XSD_STRING));
    let mut v = Validator::new(compile(raw).unwrap());
    assert!(v.validate_node_shape_expr(&alice(), 0, &g).unwrap().conforms());
    assert!(v.validate_node_shape_expr(&Term::blank_node("b0"), 0, &g).unwrap().conforms());
    assert!(v
        .validate_node_shape(&Term::literal("x", XSD_STRING), &label("http://example.org/Any"), &g)
        .unwrap()
        .conforms());
}

#[test]
fn not_conforms_exactly_when_operand_violates() {
    // 0: string literal, 1: not 0, 2: not 1
    let raw = RawSchema {
        decls: vec![],
        exprs: vec![
            string_constraint(),
            RawShapeExpr::ShapeNot { expr: 0 },
            RawShapeExpr::ShapeNot { expr: 1 },
        ],
    };
    let mut g = Graph::new();
    g.add_node(alice());
    g.add_node(Term::literal("x", XSD_STRING));
    let mut v = Validator::new(compile(raw).unwrap());
    for node in [alice(), Term::literal("x", XSD_STRING)] {
        let x = v.validate_node_shape_expr(&node, 0, &g).unwrap().conforms();
        let not_x = v.validate_node_shape_expr(&node, 1, &g).unwrap().conforms();
        let not_not_x = v.validate_node_shape_expr(&node, 2, &g).unwrap().conforms();
        assert_eq!(not_x, !x);
        assert_eq!(not_not_x, x);
    }
    let verdict = v.validate_node_shape_expr(&Term::literal("x", XSD_STRING), 1, &g).unwrap();
    assert_eq!(
        reasons(&verdict),
        vec![Reason { focus: 1, value: None, expr: 1, kind: ReasonKind::Negation }]
    );
}

#[test]
fn and_reports_first_failing_operand() {
    let raw = RawSchema {
        decls: vec![],
        exprs: vec![
            RawShapeExpr::NodeConstraint(NodeConstraint {
                node_kind: Some(NodeKind::Literal),
                ..NodeConstraint::any()
            }),
            RawShapeExpr::NodeConstraint(NodeConstraint {
                min_length: Some(100),
                ..NodeConstraint::any()
            }),
            RawShapeExpr::ShapeAnd { exprs: vec![0, 1] },
            RawShapeExpr::ShapeOr { exprs: vec![0, 1] },
            RawShapeExpr::ShapeAnd { exprs: vec![] },
            RawShapeExpr::ShapeOr { exprs: vec![] },
        ],
    };
    let mut g = Graph::new();
    g.add_node(alice());
    g.add_node(Term::literal("x", XSD_STRING));
    let mut v = Validator::new(compile(raw).unwrap());
    let and = v.validate_node_shape_expr(&alice(), 2, &g).unwrap();
    assert_eq!(
        reasons(&and),
        vec![Reason { focus: 0, value: None, expr: 0, kind: ReasonKind::NodeKind }]
    );
    let or = v.validate_node_shape_expr(&alice(), 3, &g).unwrap();
    assert_eq!(
        reasons(&or),
        vec![
            Reason { focus: 0, value: None, expr: 3, kind: ReasonKind::NoAlternative },
            Reason { focus: 0, value: None, expr: 0, kind: ReasonKind::NodeKind },
            Reason { focus: 0, value: None, expr: 1, kind: ReasonKind::MinLength },
        ]
    );
    let lit = Term::literal("x", XSD_STRING);
    assert!(v.validate_node_shape_expr(&lit, 3, &g).unwrap().conforms());
    assert!(!v.validate_node_shape_expr(&lit, 2, &g).unwrap().conforms());
    assert!(v.validate_node_shape_expr(&lit, 4, &g).unwrap().conforms());
    assert_eq!(
        reasons(&v.validate_node_shape_expr(&lit, 5, &g).unwrap()),
        vec![Reason { focus: 1, value: None, expr: 5, kind: ReasonKind::NoAlternative }]
    );
}

#[test]
fn node_constraint_facets() {
    let raw = RawSchema {
        decls: vec![],
        exprs: vec![
            RawShapeExpr::NodeConstraint(NodeConstraint {
                node_kind: Some(NodeKind::NonLiteral),
                datatype: Some(XSD_STRING.to_string()),
                min_length: Some(3),
                max_length: Some(4),
                values: Some(vec![Term::literal("abcd", XSD_STRING), bob()]),
                ..NodeConstraint::any()
            }),
            RawShapeExpr::NodeConstraint(NodeConstraint {
                node_kind: Some(NodeKind::BNode),
                min_length: Some(0),
                ..NodeConstraint::any()
            }),
        ],
    };
    let mut g = Graph::new();
    let long = Term::literal("abcde", XSD_STRING);
    let fits = Term::literal("abcd", XSD_STRING);
    let blank = Term::blank_node("b");
    g.add_node(long.duplicate());
    g.add_node(fits.duplicate());
    g.add_node(blank.duplicate());
    let mut v = Validator::new(compile(raw).unwrap());
    let at = |kind| Reason { focus: 0, value: None, expr: 0, kind };
    assert_eq!(
        reasons(&v.validate_node_shape_expr(&long, 0, &g).unwrap()),
        vec![at(ReasonKind::NodeKind), at(ReasonKind::MaxLength), at(ReasonKind::ValueSet)]
    );
    assert_eq!(
        reasons(&v.validate_node_shape_expr(&fits, 0, &g).unwrap()),
        vec![Reason { focus: 1, value: None, expr: 0, kind: ReasonKind::NodeKind }]
    );
    // A blank node has no text: a length facet fails on it, even with bound 0.
    assert_eq!(
        reasons(&v.validate_node_shape_expr(&blank, 1, &g).unwrap()),
        vec![Reason { focus: 2, value: None, expr: 1, kind: ReasonKind::MinLength }]
    );
}

/// A: { :knows @B * }   B: { :knows @A + }
fn cyclic_schema() -> CompiledSchema {
    let raw = RawSchema {
        decls: vec![decl("http://example.org/A", 1), decl("http://example.org/B", 3)],
        exprs: vec![
            RawShapeExpr::Ref { label: label("http://example.org/B") },
            shape(false, vec![], vec![constraint(KNOWS, 0, None, 0)]),
            RawShapeExpr::Ref { label: label("http://example.org/A") },
            shape(false, vec![], vec![constraint(KNOWS, 1, None, 2)]),
        ],
    };
    compile(raw).unwrap()
}

#[test]
fn recursive_schema_terminates() {
    let mut g = Graph::new();
    g.add_triple(alice(), KNOWS, bob());
    g.add_triple(bob(), KNOWS, alice());
    let mut v = Validator::new(cyclic_schema());
    let verdict = v.validate_node_shape(&alice(), &label("http://example.org/A"), &g).unwrap();
    assert!(verdict.conforms());
    assert_eq!(v.status(0, ShapeLabelIdx::new(0)), Status::Conforms);
    assert_eq!(v.status(1, ShapeLabelIdx::new(1)), Status::Conforms);
    assert_eq!(v.status(1, ShapeLabelIdx::new(0)), Status::Unknown);
}

#[test]
fn recursive_schema_on_self_loop_terminates() {
    let raw = RawSchema {
        decls: vec![decl("http://example.org/A", 1)],
        exprs: vec![
            RawShapeExpr::Ref { label: label("http://example.org/A") },
            shape(false, vec![], vec![constraint(KNOWS, 1, Some(1), 0)]),
        ],
    };
    let mut g = Graph::new();
    g.add_triple(alice(), KNOWS, alice());
    g.add_triple(bob(), KNOWS, Term::blank_node("nobody"));
    let mut v = Validator::new(compile(raw).unwrap());
    assert!(v.validate_node_shape(&alice(), &label("http://example.org/A"), &g).unwrap().conforms());
    assert!(!v.validate_node_shape(&bob(), &label("http://example.org/A"), &g).unwrap().conforms());
    assert_eq!(v.status(1, ShapeLabelIdx::new(0)), Status::Violates);
    assert_eq!(v.status(2, ShapeLabelIdx::new(0)), Status::Violates);
}

#[test]
fn revalidation_returns_the_same_verdict_without_reading_the_graph() {
    let mut g = Graph::new();
    g.add_triple(alice(), NAME, Term::literal("Alice", XSD_STRING));
    g.add_triple(bob(), NAME, Term::literal("1", XSD_INTEGER));
    let person = label("http://example.org/Person");
    let mut v = Validator::new(person_schema(false));
    let first_alice = v.validate_node_shape(&alice(), &person, &g).unwrap();
    let first_bob = v.validate_node_shape(&bob(), &person, &g).unwrap();
    // After the first run no node can be read any more: a second run that
    // looked at the graph would fail.
    g.mark_unreadable(0);
    g.mark_unreadable(2);
    let second_alice = v.validate_node_shape(&alice(), &person, &g).unwrap();
    let second_bob = v.validate_node_shape(&bob(), &person, &g).unwrap();
    assert_eq!(reasons(&first_alice), reasons(&second_alice));
    assert_eq!(reasons(&first_bob), reasons(&second_bob));
    assert!(second_alice.conforms());
    assert!(!second_bob.conforms());
    // A new run does read the graph.
    v.reset();
    assert!(matches!(
        v.validate_node_shape(&alice(), &person, &g),
        Err(ValidatorError::Evaluation(EvaluationError::Unreadable { node: 0 }))
    ));
}

#[test]
fn unreadable_node_is_an_error_and_leaves_the_pair_undecided() {
    let mut g = Graph::new();
    g.add_triple(alice(), NAME, Term::literal("Alice", XSD_STRING));
    g.mark_unreadable(0);
    let person = label("http://example.org/Person");
    let mut v = Validator::new(person_schema(false));
    assert!(matches!(
        v.validate_node_shape(&alice(), &person, &g),
        Err(ValidatorError::Evaluation(EvaluationError::Unreadable { node: 0 }))
    ));
    assert_eq!(v.status(0, ShapeLabelIdx::new(0)), Status::Unknown);
    assert!(matches!(v.neighs(0, &g), Err(EvaluationError::Unreadable { node: 0 })));
}

#[test]
fn error_is_never_turned_into_a_verdict() {
    // 0: person shape, 1: not 0, 2: or(1, empty), 3: empty
    let raw = RawSchema {
        decls: vec![],
        exprs: vec![
            shape(false, vec![], vec![]),
            RawShapeExpr::ShapeNot { expr: 0 },
            RawShapeExpr::Empty,
            RawShapeExpr::ShapeOr { exprs: vec![1, 2] },
            RawShapeExpr::ShapeAnd { exprs: vec![2, 0] },
            RawShapeExpr::ShapeExternal,
        ],
    };
    let mut g = Graph::new();
    g.add_node(alice());
    g.add_node(bob());
    g.mark_unreadable(0);
    let mut v = Validator::new(compile(raw).unwrap());
    for e in [0, 1, 3, 4] {
        assert!(matches!(
            v.validate_node_shape_expr(&alice(), e, &g),
            Err(ValidatorError::Evaluation(EvaluationError::Unreadable { node: 0 }))
        ));
    }
    assert!(matches!(
        v.validate_node_shape_expr(&alice(), 5, &g),
        Err(ValidatorError::Evaluation(EvaluationError::ExternalUnavailable { node: 0 }))
    ));
    g.set_external(0, true);
    g.set_external(1, false);
    assert!(v.validate_node_shape_expr(&alice(), 5, &g).unwrap().conforms());
    assert_eq!(
        reasons(&v.validate_node_shape_expr(&bob(), 5, &g).unwrap()),
        vec![Reason { focus: 1, value: None, expr: 5, kind: ReasonKind::External }]
    );
}

#[test]
fn unknown_label_and_expression_are_reported() {
    let mut g = Graph::new();
    g.add_node(alice());
    let mut v = Validator::new(person_schema(false));
    match v.validate_node_shape(&alice(), &label("http://example.org/Nobody"), &g) {
        Err(ValidatorError::NotFoundShapeLabel { shape }) => {
            assert_eq!(shape.to_text(), "http://example.org/Nobody")
        }
        other => panic!("unexpected {:?}", other),
    }
    assert!(matches!(
        v.validate_node_shape_expr(&alice(), 2, &g),
        Err(ValidatorError::UnknownExpression { expr: 2 })
    ));
    assert_eq!(v.get_rdf_node(&alice(), &g), Some(0));
    assert_eq!(v.get_rdf_node(&bob(), &g), None);
}

#[test]
fn add_current_marks_an_unknown_pair_pending() {
    let mut g = Graph::new();
    g.add_triple(alice(), NAME, Term::literal("1", XSD_INTEGER));
    let person = label("http://example.org/Person");
    let mut v = Validator::new(person_schema(false));
    assert_eq!(v.status(0, ShapeLabelIdx::new(0)), Status::Unknown);
    assert!(v.add_current(0, ShapeLabelIdx::new(0)));
    assert_eq!(v.status(0, ShapeLabelIdx::new(0)), Status::Pending);
    assert!(!v.add_current(0, ShapeLabelIdx::new(0)));
    assert!(!v.add_current(0, ShapeLabelIdx::new(1)));
    assert!(!v.add_current(usize::MAX, ShapeLabelIdx::new(0)));
    // A pair that is being decided counts as conforming when it is met again.
    assert!(v.validate_node_shape(&alice(), &person, &g).unwrap().conforms());
    assert_eq!(v.status(0, ShapeLabelIdx::new(0)), Status::Pending);
}

#[test]
fn compile_resolves_references_to_handles() {
    let schema = cyclic_schema();
    assert_eq!(schema.shape_count(), 2);
    assert_eq!(schema.expr_count(), 4);
    let (idx, root) = schema.find_label(&label("http://example.org/B")).unwrap();
    assert_eq!(idx, ShapeLabelIdx::new(1));
    assert_eq!(root, 3);
    assert_eq!(schema.root(idx), 3);
    assert_eq!(schema.label(idx).to_text(), "http://example.org/B");
    assert!(schema.find_label(&label("http://example.org/C")).is_none());
    assert!(schema
        .find_label(&ShapeLabel::from_bnode_str("http://example.org/B".to_string()))
        .is_none());
    match schema.expr(0) {
        shape_validation::schema::ShapeExpr::Ref { idx } => assert_eq!(idx.index, 1),
        other => panic!("unexpected {:?}", other),
    }
    match schema.expr(2) {
        shape_validation::schema::ShapeExpr::Ref { idx } => assert_eq!(idx.index, 0),
        other => panic!("unexpected {:?}", other),
    }
}

#[test]
fn compile_rejects_unresolved_reference() {
    let raw = RawSchema {
        decls: vec![decl("http://example.org/A", 0)],
        exprs: vec![RawShapeExpr::Ref { label: label("http://example.org/B") }],
    };
    match compile(raw) {
        Err(CompileError::UnresolvedReference { expr, label }) => {
            assert_eq!(expr, 0);
            assert_eq!(label.to_text(), "http://example.org/B");
        }
        _ => panic!("expected an unresolved reference"),
    }
}

#[test]
fn compile_rejects_duplicate_dangling_and_malformed() {
    let dup = RawSchema {
        decls: vec![
            decl("http://example.org/A", 0),
            decl("http://example.org/B", 0),
            decl("http://example.org/A", 0),
        ],
        exprs: vec![RawShapeExpr::Empty],
    };
    assert!(matches!(compile(dup), Err(CompileError::DuplicateLabel { decl: 2 })));
    let dangling = RawSchema {
        decls: vec![decl("http://example.org/A", 0), decl("http://example.org/B", 1)],
        exprs: vec![RawShapeExpr::Empty],
    };
    assert!(matches!(compile(dangling), Err(CompileError::DanglingDeclaration { decl: 1 })));
    let forward = RawSchema {
        decls: vec![],
        exprs: vec![RawShapeExpr::Empty, RawShapeExpr::ShapeAnd { exprs: vec![0, 1] }],
    };
    assert!(matches!(compile(forward), Err(CompileError::MalformedConstraint { expr: 1 })));
    let inverted = RawSchema {
        decls: vec![],
        exprs: vec![
            RawShapeExpr::Empty,
            shape(false, vec![], vec![constraint(NAME, 2, Some(1), 0)]),
        ],
    };
    assert!(matches!(compile(inverted), Err(CompileError::MalformedConstraint { expr: 1 })));
    let own = RawSchema { decls: vec![], exprs: vec![RawShapeExpr::ShapeNot { expr: 0 }] };
    assert!(matches!(compile(own), Err(CompileError::MalformedConstraint { expr: 0 })));
    // The first finding is the one reported.
    let both = RawSchema {
        decls: vec![],
        exprs: vec![
            RawShapeExpr::Ref { label: label("http://example.org/B") },
            RawShapeExpr::ShapeNot { expr: 7 },
        ],
    };
    assert!(matches!(compile(both), Err(CompileError::UnresolvedReference { expr: 0, .. })));
}

#[test]
fn graph_interns_terms_and_keeps_triples_once() {
    let mut g = Graph::new();
    assert!(g.add_triple(alice(), KNOWS, bob()));
    assert!(!g.add_triple(alice(), KNOWS, bob()));
    assert!(g.add_triple(alice(), NAME, Term::literal("Alice", XSD_STRING)));
    assert!(g.add_triple(bob(), KNOWS, alice()));
    assert_eq!(g.node_count(), 3);
    assert_eq!(g.triple_count(), 3);
    assert_eq!(g.add_node(bob()), 1);
    assert_eq!(g.add_node(Term::lang_literal("Alice", XSD_STRING, "en")), 3);
    assert_eq!(g.find_node(&Term::literal("Alice", XSD_STRING)), Some(2));
    assert_eq!(g.find_node(&Term::blank_node("http://example.org/alice")), None);
    assert_eq!(g.neighs(0), Some(vec![0, 1]));
    assert_eq!(g.neighs(1), Some(vec![2]));
    assert_eq!(g.neighs(2), Some(vec![]));
    assert_eq!(g.triple(1).predicate, NAME);
    assert_eq!(g.triple(1).object, 2);
    assert!(g.term(1).same(&bob()));
    assert_eq!(g.find_triple(1, &KNOWS.to_string(), 0), Some(2));
    assert_eq!(g.find_triple(1, &NAME.to_string(), 0), None);
    assert!(g.is_readable(0));
    g.mark_unreadable(0);
    assert_eq!(g.neighs(0), None);
    assert_eq!(g.external_answer(0), None);
    g.set_external(0, false);
    assert_eq!(g.external_answer(0), Some(false));
}

#[test]
fn reason_messages() {
    assert_eq!(ReasonKind::NodeKind.message(), "node kind does not match");
    assert_eq!(
        ReasonKind::MaxExceeded { triple: 1, constraint: 0 }.message(),
        "maximum cardinality exceeded"
    );
    assert_eq!(ReasonKind::MinUnmet { constraint: 0 }.message(), "minimum cardinality not reached");
    assert_eq!(ReasonKind::Closed { triple: 0 }.message(), "predicate not allowed by closed shape");
    assert_eq!(ReasonKind::Negation.message(), "negated shape is satisfied");
}

#[test]
fn conformance_decides_a_node_against_several_shapes() {
    let mut g = Graph::new();
    g.add_triple(alice(), KNOWS, bob());
    g.add_node(Term::blank_node("hidden"));
    g.mark_unreadable(2);
    let mut v = Validator::new(cyclic_schema());
    let a = ShapeLabelIdx::new(0);
    let b = ShapeLabelIdx::new(1);
    let nobody = ShapeLabelIdx::new(2);
    // alice knows bob, who knows nobody: bob is no B, so alice is no A, but
    // she is a B if bob is an A, and bob is an A since he has nothing to show.
    assert_eq!(v.conformance(0, &vec![a, b, nobody, a], &g), vec![Some(false), Some(true), None, Some(false)]);
    assert_eq!(v.conformance(1, &vec![a, b], &g), vec![Some(true), Some(false)]);
    assert_eq!(v.conformance(2, &vec![a], &g), vec![None]);
    assert_eq!(v.status(2, a), Status::Unknown);
    assert_eq!(v.conformance(0, &Vec::new(), &g), Vec::<Option<bool>>::new());
}

#[test]
fn range_facets_compare_integers() {
    let raw = RawSchema {
        decls: vec![],
        exprs: vec![
            RawShapeExpr::NodeConstraint(NodeConstraint {
                min_inclusive: Some(10),
                max_exclusive: Some(20),
                ..NodeConstraint::any()
            }),
            RawShapeExpr::NodeConstraint(NodeConstraint {
                min_exclusive: Some(-5),
                max_inclusive: Some(-5),
                ..NodeConstraint::any()
            }),
        ],
    };
    let mut g = Graph::new();
    let mut v = Validator::new(compile(raw).unwrap());
    let mut check = |lexical: &str, e: usize| {
        let t = Term::literal(lexical, XSD_INTEGER);
        g.add_node(t.duplicate());
        let verdict = v.validate_node_shape_expr(&t, e, &g).unwrap();
        reasons(&verdict).into_iter().map(|r| r.kind).collect::<Vec<_>>()
    };
    assert_eq!(check("9", 0), vec![ReasonKind::MinInclusive]);
    assert_eq!(check("10", 0), vec![]);
    assert_eq!(check("+19", 0), vec![]);
    assert_eq!(check("20", 0), vec![ReasonKind::MaxExclusive]);
    assert_eq!(check("0020", 0), vec![ReasonKind::MaxExclusive]);
    assert_eq!(check("-5", 1), vec![ReasonKind::MinExclusive]);
    assert_eq!(check("-4", 1), vec![ReasonKind::MaxInclusive]);
    assert_eq!(check("-6", 1), vec![ReasonKind::MinExclusive]);
    assert_eq!(
        check("170141183460469231731687303715884105727", 0),
        vec![ReasonKind::MaxExclusive]
    );
    assert_eq!(
        check("-170141183460469231731687303715884105728", 0),
        vec![ReasonKind::MinInclusive]
    );
}

#[test]
fn range_facets_fail_on_other_terms_and_do_not_judge_other_literals() {
    let raw = RawSchema {
        decls: vec![],
        exprs: vec![
            RawShapeExpr::NodeConstraint(NodeConstraint {
                min_inclusive: Some(10),
                ..NodeConstraint::any()
            }),
            RawShapeExpr::ShapeNot { expr: 0 },
        ],
    };
    let mut g = Graph::new();
    g.add_node(alice());
    for lexical in ["3.5", "", "-", "+", "1e3", " 12", "12a", "170141183460469231731687303715884105728"] {
        g.add_node(Term::literal(lexical, XSD_INTEGER));
    }
    let mut v = Validator::new(compile(raw).unwrap());
    assert_eq!(
        reasons(&v.validate_node_shape_expr(&alice(), 0, &g).unwrap()),
        vec![Reason { focus: 0, value: None, expr: 0, kind: ReasonKind::MinInclusive }]
    );
    for (k, lexical) in ["3.5", "", "-", "+", "1e3", " 12", "12a", "170141183460469231731687303715884105728"]
        .iter()
        .enumerate()
    {
        let t = Term::literal(lexical, XSD_INTEGER);
        for e in [0, 1] {
            match v.validate_node_shape_expr(&t, e, &g) {
                Err(ValidatorError::Evaluation(EvaluationError::Unsupported { node })) => {
                    assert_eq!(node, k + 1)
                }
                other => panic!("unexpected {:?}", other),
            }
        }
    }
}

#[test]
fn datatype_of_a_node_constraint() {
    let raw = RawSchema { decls: vec![], exprs: vec![string_constraint()] };
    let mut g = Graph::new();
    g.add_node(Term::literal("1", XSD_INTEGER));
    g.add_node(alice());
    g.add_node(Term::lang_literal("x", XSD_STRING, "en"));
    let mut v = Validator::new(compile(raw).unwrap());
    assert_eq!(
        reasons(&v.validate_node_shape_expr(&Term::literal("1", XSD_INTEGER), 0, &g).unwrap()),
        vec![Reason { focus: 0, value: None, expr: 0, kind: ReasonKind::Datatype }]
    );
    assert_eq!(
        reasons(&v.validate_node_shape_expr(&alice(), 0, &g).unwrap()),
        vec![Reason { focus: 1, value: None, expr: 0, kind: ReasonKind::Datatype }]
    );
    assert!(v
        .validate_node_shape_expr(&Term::lang_literal("x", XSD_STRING, "en"), 0, &g)
        .unwrap()
        .conforms());
}

#[test]
fn a_term_outside_the_graph_is_a_node_without_arcs() {
    // 0: string, 1: person, 2: empty, 3: not person, 4: external, 5: ref Person, 6: { :knows @Person * }
    let raw = || RawSchema {
        decls: vec![decl("http://example.org/Person", 1), decl("http://example.org/Any", 2)],
        exprs: vec![
            string_constraint(),
            shape(false, vec![], vec![constraint(NAME, 1, Some(1), 0)]),
            RawShapeExpr::Empty,
            RawShapeExpr::ShapeNot { expr: 1 },
            RawShapeExpr::ShapeExternal,
            RawShapeExpr::Ref { label: label("http://example.org/Person") },
            shape(true, vec![], vec![constraint(KNOWS, 0, None, 5)]),
        ],
    };
    let empty = Graph::new();
    let mut other = Graph::new();
    other.add_triple(bob(), NAME, Term::literal("Bob", XSD_STRING));
    for g in [&empty, &other] {
        let mut v = Validator::new(compile(raw()).unwrap());
        // Every node conforms to the empty expression.
        for node in [alice(), Term::blank_node("b"), Term::literal("x", XSD_STRING)] {
            assert!(v.validate_node_shape_expr(&node, 2, g).unwrap().conforms());
            assert!(v
                .validate_node_shape(&node, &label("http://example.org/Any"), g)
                .unwrap()
                .conforms());
        }
        // A node constraint is judged from the term.
        assert!(v
            .validate_node_shape_expr(&Term::literal("x", XSD_STRING), 0, g)
            .unwrap()
            .conforms());
        assert_eq!(
            reasons(&v.validate_node_shape_expr(&alice(), 0, g).unwrap()),
            vec![Reason { focus: 0, value: None, expr: 0, kind: ReasonKind::Datatype }]
        );
        // A shape sees no arcs: a minimum of one is not met.
        assert_eq!(
            reasons(&v.validate_node_shape_expr(&alice(), 1, g).unwrap()),
            vec![Reason { focus: 0, value: None, expr: 1, kind: ReasonKind::MinUnmet { constraint: 0 } }]
        );
        assert_eq!(
            reasons(&v.validate_node_shape(&alice(), &label("http://example.org/Person"), g).unwrap()),
            vec![Reason { focus: 0, value: None, expr: 1, kind: ReasonKind::ShapeRef { shape: 0 } }]
        );
        assert!(v.validate_node_shape_expr(&alice(), 3, g).unwrap().conforms());
        assert!(v.validate_node_shape_expr(&alice(), 6, g).unwrap().conforms());
        // No external answer is known for it.
        assert!(matches!(
            v.validate_node_shape_expr(&alice(), 4, g),
            Err(ValidatorError::Evaluation(EvaluationError::ExternalUnavailable { node: 0 }))
        ));
        // Nothing of it is kept in the validator's table.
        assert_eq!(v.status(0, ShapeLabelIdx::new(0)), Status::Unknown);
        assert_eq!(v.get_rdf_node(&alice(), g), None);
    }
    // The node of the graph is not touched by the validation of another term.
    let mut v = Validator::new(compile(raw()).unwrap());
    assert!(!v.validate_node_shape(&alice(), &label("http://example.org/Person"), &other).unwrap().conforms());
    assert_eq!(v.status(0, ShapeLabelIdx::new(0)), Status::Unknown);
    assert!(v.validate_node_shape(&bob(), &label("http://example.org/Person"), &other).unwrap().conforms());
    assert_eq!(v.status(0, ShapeLabelIdx::new(0)), Status::Conforms);
}
