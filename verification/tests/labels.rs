use shape_validation::label::{LabelError, ShapeLabel, ShapeLabelIdx};
use shape_validation::term::{Literal, Term, TermKind};
use shape_validation::numeric::parse_integer;
use shape_validation::text::{decimal, render_term};

#[test]
fn label_from_iri_str_accepts_absolute_iris() {
    match ShapeLabel::from_iri_str("http://schema.org/knows") {
        Ok(ShapeLabel::Iri(s)) => assert_eq!(s, "http://schema.org/knows"),
        other => panic!("unexpected {:?}", other),
    }
}

#[test]
fn label_from_iri_str_refuses_what_is_no_iri() {
    match ShapeLabel::from_iri_str("not an iri") {
        Err(LabelError::InvalidIri { text, error }) => {
            assert_eq!(text, "not an iri");
            // What iri_s said of the text is kept.
            assert!(matches!(error, iri_s::IriSError::IriParseError { .. }));
            assert!(error.to_string().starts_with("IRI parse error"));
        }
        other => panic!("unexpected {:?}", other),
    }
    assert!(ShapeLabel::from_iri_str("").is_err());
    assert!(ShapeLabel::from_iri_str("relative/path").is_err());
}

#[test]
fn label_from_bnode_str_and_text() {
    let l = ShapeLabel::from_bnode_str("b1".to_string());
    assert!(matches!(&l, ShapeLabel::BNode(s) if s == "b1"));
    assert_eq!(l.to_text(), "b1");
    assert!(l.same(&l.duplicate()));
    assert!(!l.same(&ShapeLabel::Iri("b1".to_string())));
    assert_eq!(ShapeLabelIdx::new(3).index, 3);
}

#[test]
fn terms_compare_by_content() {
    let a = Term::literal("x", "http://example.org/t");
    assert!(a.same(&Term::literal("x", "http://example.org/t")));
    assert!(!a.same(&Term::literal("x", "http://example.org/u")));
    assert!(!a.same(&Term::lang_literal("x", "http://example.org/t", "en")));
    assert!(!Term::iri("x").same(&Term::blank_node("x")));
    assert!(a.same(&a.duplicate()));
    assert_eq!(a.kind(), TermKind::Literal);
    assert!(a.is_literal() && !a.is_iri() && !a.is_bnode());
    assert_eq!(a.datatype().map(|s| s.as_str()), Some("http://example.org/t"));
    assert_eq!(Term::iri("x").datatype(), None);
    assert_eq!(Term::iri("héllo").text_len(), Some(5));
    assert_eq!(Term::blank_node("b").text_len(), None);
    assert!(Literal::new("1", "http://example.org/t")
        .into_term()
        .same(&Term::literal("1", "http://example.org/t")));
}

#[test]
fn decimal_text_of_integers() {
    assert_eq!(decimal(0), "0");
    assert_eq!(decimal(7), "7");
    assert_eq!(decimal(10), "10");
    assert_eq!(decimal(-12), "-12");
    assert_eq!(decimal(1234567890), "1234567890");
    assert_eq!(decimal(isize::MAX), isize::MAX.to_string());
    assert_eq!(decimal(isize::MIN), isize::MIN.to_string());
}

#[test]
fn terms_in_query_syntax() {
    assert_eq!(render_term(&Term::iri("http://example.org/a")), "<http://example.org/a>");
    assert_eq!(render_term(&Term::blank_node("b0")), "_:b0");
    assert_eq!(
        render_term(&Term::literal("a\"b\\c\nd\re", "http://example.org/t")),
        "\"a\\\"b\\\\c\\nd\\re\"^^<http://example.org/t>"
    );
    assert_eq!(render_term(&Term::lang_literal("chat", "http://example.org/t", "fr")), "\"chat\"@fr");
}

#[test]
fn integers_are_read_with_sign_and_digits_only() {
    assert_eq!(parse_integer("0"), Some(0));
    assert_eq!(parse_integer("-0"), Some(0));
    assert_eq!(parse_integer("+7"), Some(7));
    assert_eq!(parse_integer("007"), Some(7));
    assert_eq!(parse_integer("-12345"), Some(-12345));
    assert_eq!(parse_integer("170141183460469231731687303715884105727"), Some(i128::MAX));
    assert_eq!(parse_integer("-170141183460469231731687303715884105728"), Some(i128::MIN));
    assert_eq!(parse_integer("170141183460469231731687303715884105728"), None);
    assert_eq!(parse_integer("-170141183460469231731687303715884105729"), None);
    assert_eq!(parse_integer("999999999999999999999999999999999999999999"), None);
    for bad in ["", "-", "+", "--1", "1-", "1.0", "1e3", " 1", "1 ", "١"] {
        assert_eq!(parse_integer(bad), None);
    }
}

#[test]
fn label_from_a_parsed_iri() {
    let ok = ShapeLabel::from_parsed_iri("http://example.org/a", Ok("http://example.org/a".to_string()));
    assert!(matches!(ok, Ok(ShapeLabel::Iri(s)) if s == "http://example.org/a"));
    let refused = ShapeLabel::from_parsed_iri(
        "a b",
        Err(iri_s::IriSError::IriParseError { err: "no scheme".to_string() }),
    );
    match refused {
        Err(LabelError::InvalidIri { text, error }) => {
            assert_eq!(text, "a b");
            assert_eq!(error.to_string(), "IRI parse error: no scheme");
        }
        other => panic!("unexpected {:?}", other),
    }
}
