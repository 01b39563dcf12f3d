use shape_validation::component::{
    settle, Component, ConstraintError, Judgement, ValidationReport, ValidationResult,
};
use shape_validation::datatype::Datatype;
use shape_validation::logical::{
    judge_logical, tally, AndConstraintComponent, NotConstraintComponent, OrConstraintComponent,
    XoneConstraintComponent,
};
use shape_validation::min_length::MinLength;
use shape_validation::term::{Literal, Term};
use shape_validation::value_nodes::ValueNodes;
use shape_validation::value_range::{
    MaxExclusive, MaxExclusiveConstraintComponent, MaxInclusiveConstraintComponent,
    MinExclusiveConstraintComponent, MinInclusive, MinInclusiveConstraintComponent,
};

const XSD_STRING: &str = "http://www.w3.org/2001/XMLSchema#string";
const XSD_INTEGER: &str = "http://www.w3.org/2001/XMLSchema#integer";

fn focus() -> Term {
    Term::iri("http://example.org/focus")
}

fn nodes(values: &Vec<Term>) -> ValueNodes {
    ValueNodes::from_vec(values)
}

fn text(n: usize) -> Term {
    Term::literal(&"x".repeat(n), XSD_STRING)
}

fn values_of(report: &ValidationReport) -> Vec<String> {
    let mut out = Vec::new();
    let mut i = 0;
    while let Some(r) = report.get(i) {
        assert!(r.focus_node.same(&focus()));
        out.push(match &r.value_node {
            Some(Term::Literal { lexical, .. }) => lexical.clone(),
            Some(Term::Iri(s)) => s.clone(),
            Some(Term::BlankNode(s)) => format!("_:{}", s),
            None => String::new(),
        });
        i += 1;
    }
    out
}

#[test]
fn min_length_new_keeps_the_bound() {
    assert_eq!(MinLength::new(3).min_length(), 3);
    assert_eq!(MinLength::new(-1).min_length(), -1);
}

#[test]
fn min_length_direct_on_lengths_around_the_bound() {
    let c = MinLength::new(3);
    for (n, expected) in [(0, false), (1, false), (2, false), (3, true), (4, true)] {
        assert_eq!(c.check(&text(n)), expected);
    }
    assert!(c.check(&Term::iri("abc")));
    assert!(!c.check(&Term::iri("ab")));
    assert!(!c.check(&Term::blank_node("abcdef")));
    assert!(MinLength::new(0).check(&text(0)));
    assert!(MinLength::new(-5).check(&text(0)));
    assert!(!MinLength::new(-5).check(&Term::blank_node("b")));
}

#[test]
fn min_length_query_text() {
    let c = MinLength::new(3);
    assert_eq!(
        c.sparql_query(&Term::iri("http://example.org/a")).unwrap(),
        " ASK { FILTER (STRLEN(str(<http://example.org/a>)) >= 3) } "
    );
    assert_eq!(
        MinLength::new(-2).sparql_query(&Term::literal("ab", XSD_STRING)).unwrap(),
        " ASK { FILTER (STRLEN(str(\"ab\"^^<http://www.w3.org/2001/XMLSchema#string>)) >= -2) } "
    );
    assert_eq!(c.sparql_query(&Term::blank_node("b")), None);
}

#[test]
fn min_length_strategies_agree_on_truthful_answers() {
    let c = MinLength::new(3);
    let values: Vec<Term> = vec![
        text(0),
        text(1),
        text(2),
        text(3),
        text(4),
        Term::blank_node("b"),
        Term::iri("http://example.org/long"),
    ];
    let answers: Vec<Option<bool>> = values
        .iter()
        .map(|v| if v.is_bnode() { None } else { Some(c.check(v)) })
        .collect();
    let mut direct = ValidationReport::new();
    let mut query = ValidationReport::new();
    let d = c.evaluate_default(&focus(), &nodes(&values), &mut direct);
    let q = c.evaluate_sparql(&focus(), &nodes(&values), &answers, &mut query);
    assert_eq!(d, Ok(false));
    assert_eq!(q, d);
    assert_eq!(values_of(&direct), vec!["", "x", "xx", "_:b"]);
    assert_eq!(values_of(&query), values_of(&direct));
    assert!(!direct.conforms());
    assert_eq!(direct.len(), 4);
    assert!(matches!(direct.get(0), Some(r) if r.component == Component::MinLength));
}

#[test]
fn min_length_all_values_pass() {
    let c = MinLength::new(2);
    let values = vec![text(2), text(5)];
    let mut report = ValidationReport::new();
    assert_eq!(c.evaluate_default(&focus(), &nodes(&values), &mut report), Ok(true));
    assert!(report.conforms());
    assert_eq!(
        c.evaluate_sparql(&focus(), &nodes(&values), &vec![Some(true), Some(true)], &mut report),
        Ok(true)
    );
    assert!(report.conforms());
    assert_eq!(c.evaluate_default(&focus(), &ValueNodes::new(), &mut report), Ok(true));
}

#[test]
fn min_length_query_failure_ends_the_evaluation() {
    let c = MinLength::new(3);
    let values = vec![text(1), Term::blank_node("b"), text(5), text(0)];
    let mut report = ValidationReport::new();
    let r = c.evaluate_sparql(
        &focus(),
        &nodes(&values),
        &vec![Some(false), Some(true), None, Some(false)],
        &mut report,
    );
    assert_eq!(r, Err(ConstraintError::Query));
    // The values before the failure have left their records.
    assert_eq!(values_of(&report), vec!["x", "_:b"]);
    // An answer that is missing is a failure of the store too.
    let mut short = ValidationReport::new();
    assert_eq!(
        c.evaluate_sparql(&focus(), &nodes(&values), &vec![Some(true)], &mut short),
        Err(ConstraintError::Query)
    );
    assert_eq!(values_of(&short), vec!["_:b"]);
}

#[test]
fn datatype_records_values_of_another_datatype() {
    let c = Datatype::new(XSD_STRING);
    assert!(c.check(&text(1)));
    assert!(!c.check(&Term::literal("1", XSD_INTEGER)));
    assert!(!c.check(&Term::iri(XSD_STRING)));
    assert!(!c.check(&Term::blank_node("b")));
    let pairs = vec![
        (focus(), text(1)),
        (focus(), Term::literal("1", XSD_INTEGER)),
        (Term::iri("http://example.org/other"), Term::iri("http://example.org/v")),
        (focus(), text(2)),
    ];
    let out = c.evaluate(&pairs);
    assert_eq!(out.len(), 2);
    assert!(out[0].focus_node.same(&focus()));
    assert!(out[0].value_node.as_ref().unwrap().same(&Term::literal("1", XSD_INTEGER)));
    assert_eq!(out[0].component, Component::Datatype);
    assert!(out[1].focus_node.same(&Term::iri("http://example.org/other")));
    assert!(out[1].value_node.as_ref().unwrap().same(&Term::iri("http://example.org/v")));
    let direct = c.evaluate_default(&pairs);
    let query = c.evaluate_sparql(&pairs);
    assert_eq!(direct.len(), 2);
    assert_eq!(query.len(), 2);
    for i in 0..2 {
        assert!(direct[i].value_node.as_ref().unwrap().same(query[i].value_node.as_ref().unwrap()));
    }
    assert!(c.evaluate_one(&focus(), &text(3)).is_none());
    assert!(c.evaluate_one(&focus(), &focus()).is_some());
}

#[test]
fn max_exclusive_strategies() {
    let c = MaxExclusive::new(Literal::new("10", XSD_INTEGER));
    let v = Term::literal("3", XSD_INTEGER);
    assert_eq!(
        c.sparql_query(&v).unwrap(),
        " ASK { FILTER (\"3\"^^<http://www.w3.org/2001/XMLSchema#integer> < \"10\"^^<http://www.w3.org/2001/XMLSchema#integer>) } "
    );
    assert_eq!(c.sparql_query(&Term::blank_node("b")), None);
    let values = vec![v, Term::literal("12", XSD_INTEGER), Term::blank_node("b")];
    let mut report = ValidationReport::new();
    assert_eq!(
        c.evaluate_default(&focus(), &nodes(&values), &mut report),
        Err(ConstraintError::NotImplemented)
    );
    assert!(report.conforms());
    assert_eq!(
        c.evaluate_sparql(
            &focus(),
            &nodes(&values),
            &vec![Some(true), Some(false), Some(true)],
            &mut report
        ),
        Ok(false)
    );
    // A blank node is a violation whatever the store answers, and without an answer.
    assert_eq!(values_of(&report), vec!["12", "_:b"]);
    let mut blank = ValidationReport::new();
    let only_blank = nodes(&vec![Term::blank_node("b")]);
    assert_eq!(c.evaluate_sparql(&focus(), &only_blank, &vec![Some(true)], &mut blank), Ok(false));
    assert_eq!(c.evaluate_sparql(&focus(), &only_blank, &vec![None], &mut blank), Ok(false));
    assert_eq!(c.evaluate_sparql(&focus(), &only_blank, &vec![], &mut blank), Ok(false));
    assert_eq!(values_of(&blank), vec!["_:b", "_:b", "_:b"]);
    assert!(matches!(report.get(1), Some(r) if r.component == Component::MaxExclusive));
    let mut failing = ValidationReport::new();
    assert_eq!(
        c.evaluate_sparql(
            &focus(),
            &nodes(&values),
            &vec![None, Some(false), Some(false)],
            &mut failing
        ),
        Err(ConstraintError::Query)
    );
    assert!(failing.conforms());
}

#[test]
fn min_inclusive_strategies() {
    let c = MinInclusive::new(Literal::new("10", XSD_INTEGER));
    let v = Term::literal("3", XSD_INTEGER);
    assert_eq!(
        c.sparql_query(&v).unwrap(),
        " ASK { FILTER (\"3\"^^<http://www.w3.org/2001/XMLSchema#integer> >= \"10\"^^<http://www.w3.org/2001/XMLSchema#integer>) } "
    );
    assert_eq!(c.sparql_query(&Term::blank_node("b")), None);
    let values = vec![
        v,
        Term::literal("12", XSD_INTEGER),
        Term::literal("10", XSD_INTEGER),
        Term::blank_node("b"),
    ];
    let mut report = ValidationReport::new();
    assert_eq!(
        c.evaluate_default(&focus(), &nodes(&values), &mut report),
        Err(ConstraintError::NotImplemented)
    );
    // The answers of a store that holds the same data: 3 >= 10, 12 >= 10, 10 >= 10.
    assert_eq!(
        c.evaluate_sparql(
            &focus(),
            &nodes(&values),
            &vec![Some(false), Some(true), Some(true), Some(true)],
            &mut report
        ),
        Ok(false)
    );
    assert_eq!(values_of(&report), vec!["3", "_:b"]);
    assert!(matches!(report.get(0), Some(r) if r.component == Component::MinInclusive));
}

#[test]
fn min_inclusive_passes_a_value_above_the_bound() {
    let c = MinInclusive::new(Literal::new("3", XSD_INTEGER));
    let five = Term::literal("5", XSD_INTEGER);
    assert_eq!(
        c.sparql_query(&five).unwrap(),
        " ASK { FILTER (\"5\"^^<http://www.w3.org/2001/XMLSchema#integer> >= \"3\"^^<http://www.w3.org/2001/XMLSchema#integer>) } "
    );
    let mut report = ValidationReport::new();
    // 5 >= 3 holds, so a truthful store answers true.
    assert_eq!(
        c.evaluate_sparql(&focus(), &nodes(&vec![five]), &vec![Some(true)], &mut report),
        Ok(true)
    );
    assert!(report.conforms());
}

#[test]
fn value_nodes_hold_no_value_twice() {
    let values = vec![text(1), text(2), text(1), Term::blank_node("b"), text(2), text(5)];
    let set = nodes(&values);
    assert_eq!(set.len(), 4);
    assert!(set.get(0).unwrap().same(&text(1)));
    assert!(set.get(1).unwrap().same(&text(2)));
    assert!(set.get(2).unwrap().same(&Term::blank_node("b")));
    assert!(set.get(3).unwrap().same(&text(5)));
    assert!(set.get(4).is_none());
    assert_eq!(set.terms().len(), 4);
    assert!(set.contains(&text(5)));
    assert!(!set.contains(&text(3)));
    let mut more = ValueNodes::new();
    assert!(more.insert(text(1)));
    assert!(!more.insert(text(1)));
    assert!(more.insert(text(2)));
    assert_eq!(more.len(), 2);
    // A value that fails leaves one record, however often it was found.
    let mut report = ValidationReport::new();
    assert_eq!(MinLength::new(3).evaluate_default(&focus(), &set, &mut report), Ok(false));
    assert_eq!(values_of(&report), vec!["x", "xx", "_:b"]);
}

#[test]
fn range_components_are_made_from_a_literal() {
    let _ = MinExclusiveConstraintComponent::new(Literal::new("1", XSD_INTEGER));
    let _ = MinInclusiveConstraintComponent::new(Literal::new("1", XSD_INTEGER));
    let _ = MaxExclusiveConstraintComponent::new(Literal::new("1", XSD_INTEGER));
    let _ = MaxInclusiveConstraintComponent::new(Literal::new("1", XSD_INTEGER));
}

#[test]
fn settle_records_failures_until_the_first_abort() {
    let values = vec![text(1), text(2), text(3), text(4)];
    let mut report = ValidationReport::new();
    let r = settle(
        &focus(),
        &nodes(&values),
        Component::Xone,
        &vec![
            Judgement::Fail,
            Judgement::Pass,
            Judgement::Abort(ConstraintError::NotImplemented),
            Judgement::Fail,
        ],
        &mut report,
    );
    assert_eq!(r, Err(ConstraintError::NotImplemented));
    assert_eq!(values_of(&report), vec!["x"]);
    report.add(ValidationResult::new(&focus(), Component::Or, None));
    report.make_validation_result(&focus(), Component::And, Some(&text(2)));
    assert_eq!(values_of(&report), vec!["x", "", "xx"]);
}

#[test]
fn logical_components_judge_by_the_shapes_a_value_conforms_to() {
    let s = |n: &str| Term::iri(&format!("http://example.org/{}", n));
    assert_eq!(tally(&vec![Some(true), Some(false), Some(true)], 3), Some(2));
    assert_eq!(tally(&vec![Some(true), None, Some(true)], 3), None);
    assert_eq!(tally(&vec![Some(true)], 2), None);
    assert_eq!(tally(&vec![Some(true), None], 1), Some(1));
    assert_eq!(tally(&vec![], 0), Some(0));
    let rows = vec![
        vec![Some(true), Some(true)],
        vec![Some(true), Some(false)],
        vec![Some(false), Some(false)],
    ];
    let expected = [
        (Component::And, [Judgement::Pass, Judgement::Fail, Judgement::Fail]),
        (Component::Or, [Judgement::Pass, Judgement::Pass, Judgement::Fail]),
        (Component::Xone, [Judgement::Fail, Judgement::Pass, Judgement::Fail]),
        (Component::MinLength, [Judgement::Fail, Judgement::Fail, Judgement::Fail]),
    ];
    for (kind, judgements) in expected {
        for (row, j) in rows.iter().zip(judgements) {
            assert_eq!(judge_logical(kind, 2, row), j);
        }
    }
    assert_eq!(judge_logical(Component::Not, 1, &vec![Some(false)]), Judgement::Pass);
    assert_eq!(judge_logical(Component::Not, 1, &vec![Some(true)]), Judgement::Fail);
    assert_eq!(
        judge_logical(Component::Not, 1, &vec![None]),
        Judgement::Abort(ConstraintError::Shape)
    );
    assert_eq!(judge_logical(Component::And, 0, &vec![]), Judgement::Pass);
    assert_eq!(judge_logical(Component::Or, 0, &vec![]), Judgement::Fail);

    let values = vec![text(1), text(2), text(3)];
    let and = AndConstraintComponent::new(vec![s("A"), s("B")]);
    let or = OrConstraintComponent::new(vec![s("A"), s("B")]);
    let xone = XoneConstraintComponent::new(vec![s("A"), s("B")]);
    let not = NotConstraintComponent::new(s("A"));
    assert_eq!(and.shape_count(), 2);
    assert!(or.shape(1).unwrap().same(&s("B")));
    assert!(xone.shape(2).is_none());
    assert!(not.shape().same(&s("A")));

    let mut report = ValidationReport::new();
    assert_eq!(and.evaluate(&focus(), &nodes(&values), &rows, &mut report), Ok(false));
    assert_eq!(values_of(&report), vec!["xx", "xxx"]);
    let mut report = ValidationReport::new();
    assert_eq!(or.evaluate(&focus(), &nodes(&values), &rows, &mut report), Ok(false));
    assert_eq!(values_of(&report), vec!["xxx"]);
    let mut report = ValidationReport::new();
    assert_eq!(xone.evaluate(&focus(), &nodes(&values), &rows, &mut report), Ok(false));
    assert_eq!(values_of(&report), vec!["x", "xxx"]);
    assert!(matches!(report.get(0), Some(r) if r.component == Component::Xone));
    let mut report = ValidationReport::new();
    let first: Vec<Vec<Option<bool>>> = rows.iter().map(|r| vec![r[0]]).collect();
    assert_eq!(not.evaluate(&focus(), &nodes(&values), &first, &mut report), Ok(false));
    assert_eq!(values_of(&report), vec!["x", "xx"]);
    // Decisions that are missing end the evaluation.
    let mut report = ValidationReport::new();
    assert_eq!(
        or.evaluate(&focus(), &nodes(&values), &rows[..2].to_vec(), &mut report),
        Err(ConstraintError::Shape)
    );
    assert!(report.conforms());
    let mut report = ValidationReport::new();
    assert_eq!(or.evaluate(&focus(), &nodes(&vec![text(2)]), &vec![vec![Some(true), Some(true)]], &mut report), Ok(true));
}

#[test]
fn datatype_records_are_made_on_demand() {
    let c = Datatype::new(XSD_STRING);
    let pairs = vec![
        (focus(), text(1)),
        (focus(), Term::literal("1", XSD_INTEGER)),
        (focus(), text(2)),
        (focus(), Term::blank_node("b")),
    ];
    let (next, first) = c.next_result(&pairs, 0).unwrap();
    assert_eq!(next, 2);
    assert!(first.value_node.as_ref().unwrap().same(&Term::literal("1", XSD_INTEGER)));
    let (next, second) = c.next_result(&pairs, next).unwrap();
    assert_eq!(next, 4);
    assert!(second.value_node.as_ref().unwrap().same(&Term::blank_node("b")));
    assert!(c.next_result(&pairs, next).is_none());
    assert!(c.next_result(&pairs, 9).is_none());
}

#[test]
fn report_folds_into_a_verdict_for_each_focus_node() {
    let other = Term::iri("http://example.org/other");
    let mut report = ValidationReport::new();
    assert!(report.node_conforms(&focus()));
    report.make_validation_result(&focus(), Component::MinLength, Some(&text(1)));
    report.make_validation_result(&other, Component::Datatype, None);
    assert!(!report.node_conforms(&focus()));
    assert!(!report.node_conforms(&other));
    assert!(report.node_conforms(&text(1)));
    assert!(!report.pair_conforms(&focus(), Component::MinLength));
    assert!(report.pair_conforms(&focus(), Component::Datatype));
    assert!(!report.pair_conforms(&other, Component::Datatype));
    assert!(report.pair_conforms(&other, Component::MinLength));
}
