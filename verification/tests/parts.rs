use shape_validation::engine::{contains_term, contains_text};
use shape_validation::label::ShapeLabel;
use shape_validation::report::{EvaluationError, Reason, ReasonKind, Verdict};
use shape_validation::schema::{
    find_label_in, indices_below, NodeConstraint, NodeKind, RawShapeExpr, ShapeBody,
    TripleConstraint,
};
use shape_validation::state::{Status, ValidationState};
use shape_validation::term::{Term, TermKind};
use std::collections::HashSet;

#[test]
fn derived_equality_is_equality_by_content() {
    let a = Term::literal("x", "http://example.org/t");
    let b = Term::literal("x", "http://example.org/t");
    let c = Term::lang_literal("x", "http://example.org/t", "en");
    assert_eq!(a == b, a.same(&b));
    assert_eq!(a == c, a.same(&c));
    assert_eq!(a, a.duplicate());
    let set: HashSet<Term> = [a.clone(), b, c].into_iter().collect();
    assert_eq!(set.len(), 2);
    let l = ShapeLabel::from_iri_str("http://example.org/S").unwrap();
    assert_eq!(l, l.duplicate());
    assert_ne!(l, ShapeLabel::from_bnode_str("http://example.org/S".to_string()));
}

#[test]
fn node_kinds() {
    assert!(NodeKind::Iri.accepts(TermKind::Iri));
    assert!(!NodeKind::Iri.accepts(TermKind::BlankNode));
    assert!(NodeKind::BNode.accepts(TermKind::BlankNode));
    assert!(NodeKind::Literal.accepts(TermKind::Literal));
    assert!(NodeKind::NonLiteral.accepts(TermKind::Iri));
    assert!(NodeKind::NonLiteral.accepts(TermKind::BlankNode));
    assert!(!NodeKind::NonLiteral.accepts(TermKind::Literal));
}

#[test]
fn structure_checks() {
    assert!(indices_below(&vec![0, 2, 1], 3));
    assert!(!indices_below(&vec![0, 3], 3));
    assert!(indices_below(&vec![], 0));
    let body = |min, max, value_expr| ShapeBody {
        closed: false,
        extra: vec![],
        constraints: vec![TripleConstraint {
            predicate: "p".to_string(),
            min,
            max,
            value_expr,
        }],
        sem_acts: vec![],
        annotations: vec![],
    };
    assert!(body(1, Some(1), 0).check_at(1));
    assert!(body(0, None, 4).check_at(5));
    assert!(!body(1, Some(1), 1).check_at(1));
    assert!(!body(2, Some(1), 0).check_at(1));
    assert!(RawShapeExpr::ShapeNot { expr: 2 }.check_structure(3));
    assert!(!RawShapeExpr::ShapeNot { expr: 3 }.check_structure(3));
    assert!(RawShapeExpr::ShapeOr { exprs: vec![1] }.check_structure(2));
    assert!(!RawShapeExpr::ShapeAnd { exprs: vec![2] }.check_structure(2));
    assert!(RawShapeExpr::Empty.check_structure(0));
    assert!(RawShapeExpr::ShapeExternal.check_structure(0));
    assert!(RawShapeExpr::Shape(body(1, None, 0)).check_structure(1));
    let unmet = body(2, None, 0).check_minimums(&vec![1], 7, 9);
    assert_eq!(
        unmet,
        vec![Reason { focus: 7, value: None, expr: 9, kind: ReasonKind::MinUnmet { constraint: 0 } }]
    );
    assert!(body(2, None, 0).check_minimums(&vec![2], 7, 9).is_empty());
}

#[test]
fn lookups() {
    let labels = vec![
        ShapeLabel::from_bnode_str("a".to_string()),
        ShapeLabel::from_bnode_str("b".to_string()),
        ShapeLabel::from_bnode_str("a".to_string()),
    ];
    assert_eq!(find_label_in(&labels, &ShapeLabel::from_bnode_str("a".to_string())), Some(0));
    assert_eq!(find_label_in(&labels, &ShapeLabel::from_bnode_str("b".to_string())), Some(1));
    assert_eq!(find_label_in(&labels, &ShapeLabel::Iri("a".to_string())), None);
    assert!(contains_term(&vec![Term::iri("a"), Term::blank_node("b")], &Term::blank_node("b")));
    assert!(!contains_term(&vec![Term::iri("a")], &Term::blank_node("a")));
    assert!(contains_text(&vec!["p".to_string(), "q".to_string()], &"q".to_string()));
    assert!(!contains_text(&vec![], &"q".to_string()));
}

#[test]
fn node_constraint_by_itself() {
    let nc = NodeConstraint { min_exclusive: Some(0), ..NodeConstraint::any() };
    assert!(nc.check(&Term::literal("1", "t"), 3, 4).unwrap().is_empty());
    assert_eq!(
        nc.check(&Term::literal("0", "t"), 3, 4).unwrap(),
        vec![Reason { focus: 3, value: None, expr: 4, kind: ReasonKind::MinExclusive }]
    );
    assert_eq!(
        nc.check(&Term::literal("zero", "t"), 3, 4),
        Err(EvaluationError::Unsupported { node: 3 })
    );
    assert!(NodeConstraint::any().check(&Term::literal("zero", "t"), 0, 0).unwrap().is_empty());
    assert!(NodeConstraint::any().check(&Term::blank_node("b"), 0, 0).unwrap().is_empty());
}

#[test]
fn verdict_of_reasons() {
    assert!(Verdict::from_reasons(Vec::new()).conforms());
    let r = Reason { focus: 0, value: None, expr: 0, kind: ReasonKind::Negation };
    match Verdict::from_reasons(vec![r]) {
        Verdict::Violates(reasons) => assert_eq!(reasons, vec![r]),
        Verdict::Conforms => panic!("a violation is no conformance"),
    }
}

#[test]
fn memo_table() {
    let mut t = ValidationState::new();
    assert_eq!(t.rows(), 0);
    assert_eq!(t.lookup(0, 0), Status::Unknown);
    t.grow(2, 3);
    assert_eq!(t.rows(), 2);
    t.grow(1, 3);
    assert_eq!(t.rows(), 2);
    assert_eq!(t.get(1, 2), Status::Unknown);
    t.set(1, 2, Status::Pending);
    assert_eq!(t.get(1, 2), Status::Pending);
    assert_eq!(t.get(1, 1), Status::Unknown);
    assert_eq!(t.get(0, 2), Status::Unknown);
    t.set(1, 2, Status::Violates);
    assert_eq!(t.lookup(1, 2), Status::Violates);
    assert_eq!(t.lookup(1, 3), Status::Unknown);
    assert_eq!(t.lookup(2, 0), Status::Unknown);
}
