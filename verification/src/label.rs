//! Shape labels and the dense handles a compiled schema gives them.

use crate::term::same_text;
use std::str::FromStr;
use vstd::prelude::*;

verus! {

/// The error of `iri_s`, carried through as it is.
#[verifier::external_type_specification]
#[verifier::external_body]
pub struct ExIriSError(iri_s::IriSError);

/// Whether `iri_s::IriS::from_str` accepts a text as an absolute IRI.
pub uninterp spec fn iri_accepted(text: Seq<char>) -> bool;

/// Calls `iri_s::IriS::from_str`, which hands the text to
/// `oxrdf::NamedNode::new`. That function validates the text as an absolute
/// IRI and keeps it unchanged when it is one, so the contract claims that
/// the call succeeds exactly on the accepted texts and that the IRI it
/// returns reads as the text that went in.
#[verifier::external_body]
fn parse_iri(text: &str) -> (r: Result<String, iri_s::IriSError>)
    ensures
        r is Ok <==> iri_accepted(text@),
        r matches Ok(s) ==> s@ == text@,
{
    iri_s::IriS::from_str(text).map(|iri| iri.as_str().to_string())
}

/// The name of a shape: an IRI or a blank-node identifier.
#[derive(Debug, Clone, PartialEq, Eq, Hash)]
pub enum ShapeLabel {
    Iri(String),
    BNode(String),
}

/// The mathematical value of a [`ShapeLabel`].
pub enum ShapeLabelView {
    Iri(Seq<char>),
    BNode(Seq<char>),
}

impl ShapeLabelView {
    /// The characters of the label, whichever kind it is.
    pub open spec fn text(self) -> Seq<char> {
        match self {
            ShapeLabelView::Iri(s) => s,
            ShapeLabelView::BNode(s) => s,
        }
    }
}

impl View for ShapeLabel {
    type V = ShapeLabelView;

    open spec fn view(&self) -> ShapeLabelView {
        match *self {
            ShapeLabel::Iri(s) => ShapeLabelView::Iri(s@),
            ShapeLabel::BNode(s) => ShapeLabelView::BNode(s@),
        }
    }
}

/// Why a text could not become a shape label.
#[derive(Debug)]
pub enum LabelError {
    /// The text is not an absolute IRI: `error` is what `iri_s` said of it.
    InvalidIri { text: String, error: iri_s::IriSError },
}

/// A dense handle into a compiled schema's shape table.
#[derive(Debug, Clone, Copy, PartialEq, Eq, Hash, Structural)]
pub struct ShapeLabelIdx {
    pub index: usize,
}

impl ShapeLabelIdx {
    pub fn new(index: usize) -> (r: ShapeLabelIdx)
        ensures
            r.index == index,
    {
        ShapeLabelIdx { index }
    }
}

impl ShapeLabel {
    /// A label that is a blank-node identifier.
    pub fn from_bnode_str(s: String) -> (label: ShapeLabel)
        ensures
            label@ == ShapeLabelView::BNode(s@),
    {
        ShapeLabel::BNode(s)
    }

    /// Tests a text that `iri_s` accepted or refused, and makes the label
    /// or the error, which keeps what `iri_s` said.
    pub fn from_parsed_iri(text: &str, parsed: Result<String, iri_s::IriSError>) -> (r: Result<
        ShapeLabel,
        LabelError,
    >)
        ensures
            r is Ok <==> parsed is Ok,
            r matches Ok(label) ==> parsed matches Ok(s) && label@ == ShapeLabelView::Iri(s@),
            r matches Err(LabelError::InvalidIri { text: t, error }) ==> t@ == text@
                && parsed == Err::<String, iri_s::IriSError>(error),
    {
        match parsed {
            Ok(s) => Ok(ShapeLabel::Iri(s)),
            Err(error) => Err(LabelError::InvalidIri { text: text.to_owned(), error }),
        }
    }

    /// A label that is an IRI, when the text is an absolute IRI.
    pub fn from_iri_str(s: &str) -> (r: Result<ShapeLabel, LabelError>)
        ensures
            r is Ok <==> iri_accepted(s@),
            r matches Ok(label) ==> label@ == ShapeLabelView::Iri(s@),
            r matches Err(LabelError::InvalidIri { text, .. }) ==> text@ == s@,
    {
        let parsed = parse_iri(s);
        ShapeLabel::from_parsed_iri(s, parsed)
    }

    /// The label as text, as it is displayed.
    pub fn to_text(&self) -> (r: String)
        ensures
            r@ == self@.text(),
    {
        match self {
            ShapeLabel::Iri(s) => s.clone(),
            ShapeLabel::BNode(s) => s.clone(),
        }
    }

    /// Equality by kind and content.
    pub fn same(&self, other: &ShapeLabel) -> (r: bool)
        ensures
            r == (self@ == other@),
    {
        match self {
            ShapeLabel::Iri(a) => match other {
                ShapeLabel::Iri(b) => same_text(a, b),
                _ => false,
            },
            ShapeLabel::BNode(a) => match other {
                ShapeLabel::BNode(b) => same_text(a, b),
                _ => false,
            },
        }
    }

    /// A copy with the same content.
    pub fn duplicate(&self) -> (r: ShapeLabel)
        ensures
            r@ == self@,
    {
        match self {
            ShapeLabel::Iri(a) => ShapeLabel::Iri(a.clone()),
            ShapeLabel::BNode(a) => ShapeLabel::BNode(a.clone()),
        }
    }
}

} // verus!
