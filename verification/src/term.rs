//! RDF terms: IRIs, blank nodes and literals, compared by content.

use vstd::prelude::*;
use vstd::string::*;

verus! {

/// An RDF term.
#[derive(Debug, Clone, PartialEq, Eq, Hash)]
pub enum Term {
    Iri(String),
    BlankNode(String),
    Literal { lexical: String, datatype: String, language: Option<String> },
}

/// The mathematical value of a [`Term`].
pub enum TermView {
    Iri(Seq<char>),
    BlankNode(Seq<char>),
    Literal { lexical: Seq<char>, datatype: Seq<char>, language: Option<Seq<char>> },
}

/// The three kinds of term.
#[derive(Debug, Clone, Copy, PartialEq, Eq, Structural)]
pub enum TermKind {
    Iri,
    BlankNode,
    Literal,
}

pub open spec fn opt_text_view(o: Option<String>) -> Option<Seq<char>> {
    match o {
        Some(s) => Some(s@),
        None => None,
    }
}

impl View for Term {
    type V = TermView;

    open spec fn view(&self) -> TermView {
        match *self {
            Term::Iri(s) => TermView::Iri(s@),
            Term::BlankNode(s) => TermView::BlankNode(s@),
            Term::Literal { lexical, datatype, language } => TermView::Literal {
                lexical: lexical@,
                datatype: datatype@,
                language: opt_text_view(language),
            },
        }
    }
}

impl TermView {
    /// The kind of the term.
    pub open spec fn kind(self) -> TermKind {
        match self {
            TermView::Iri(_) => TermKind::Iri,
            TermView::BlankNode(_) => TermKind::BlankNode,
            TermView::Literal { .. } => TermKind::Literal,
        }
    }

    /// The datatype IRI of a literal; nothing for the other kinds.
    pub open spec fn datatype(self) -> Option<Seq<char>> {
        match self {
            TermView::Literal { datatype, .. } => Some(datatype),
            _ => None,
        }
    }

    /// The characters that string facets measure: the IRI itself or a
    /// literal's lexical form. A blank node has none.
    pub open spec fn text(self) -> Option<Seq<char>> {
        match self {
            TermView::Iri(s) => Some(s),
            TermView::BlankNode(_) => None,
            TermView::Literal { lexical, .. } => Some(lexical),
        }
    }
}

/// Content equality of two strings.
pub fn same_text(a: &String, b: &String) -> (r: bool)
    ensures
        r == (a@ == b@),
{
    a.eq(b)
}

/// Content equality of two optional strings.
pub fn same_opt_text(a: &Option<String>, b: &Option<String>) -> (r: bool)
    ensures
        r == (opt_text_view(*a) == opt_text_view(*b)),
{
    match a {
        Some(x) => match b {
            Some(y) => same_text(x, y),
            None => false,
        },
        None => match b {
            Some(_) => false,
            None => true,
        },
    }
}

impl Term {
    /// An IRI term with the given text.
    pub fn iri(text: &str) -> (t: Term)
        ensures
            t@ == TermView::Iri(text@),
    {
        Term::Iri(String::from_str(text))
    }

    /// A blank node with the given local identifier.
    pub fn blank_node(id: &str) -> (t: Term)
        ensures
            t@ == TermView::BlankNode(id@),
    {
        Term::BlankNode(String::from_str(id))
    }

    /// A literal with a lexical form and a datatype IRI, without language tag.
    pub fn literal(lexical: &str, datatype: &str) -> (t: Term)
        ensures
            t@ == (TermView::Literal { lexical: lexical@, datatype: datatype@, language: None }),
    {
        Term::Literal {
            lexical: String::from_str(lexical),
            datatype: String::from_str(datatype),
            language: None,
        }
    }

    /// A literal that carries a language tag.
    pub fn lang_literal(lexical: &str, datatype: &str, language: &str) -> (t: Term)
        ensures
            t@ == (TermView::Literal {
                lexical: lexical@,
                datatype: datatype@,
                language: Some(language@),
            }),
    {
        Term::Literal {
            lexical: String::from_str(lexical),
            datatype: String::from_str(datatype),
            language: Some(String::from_str(language)),
        }
    }

    /// Classifies the term.
    pub fn kind(&self) -> (k: TermKind)
        ensures
            k == self@.kind(),
    {
        match self {
            Term::Iri(_) => TermKind::Iri,
            Term::BlankNode(_) => TermKind::BlankNode,
            Term::Literal { .. } => TermKind::Literal,
        }
    }

    pub fn is_iri(&self) -> (b: bool)
        ensures
            b == (self@.kind() == TermKind::Iri),
    {
        matches!(self, Term::Iri(_))
    }

    pub fn is_bnode(&self) -> (b: bool)
        ensures
            b == (self@.kind() == TermKind::BlankNode),
    {
        matches!(self, Term::BlankNode(_))
    }

    pub fn is_literal(&self) -> (b: bool)
        ensures
            b == (self@.kind() == TermKind::Literal),
    {
        matches!(self, Term::Literal { .. })
    }

    /// The datatype of a literal, `None` for an IRI or a blank node.
    pub fn datatype(&self) -> (d: Option<&String>)
        ensures
            d is Some <==> self@.datatype() is Some,
            d matches Some(s) ==> self@.datatype() == Some(s@),
    {
        match self {
            Term::Literal { datatype, .. } => Some(datatype),
            _ => None,
        }
    }

    /// The number of characters of the term's text, `None` for a blank node.
    pub fn text_len(&self) -> (n: Option<usize>)
        ensures
            n is Some <==> self@.text() is Some,
            n matches Some(k) ==> self@.text() matches Some(s) && s.len() == k,
    {
        match self {
            Term::Iri(s) => Some(s.as_str().unicode_len()),
            Term::BlankNode(_) => None,
            Term::Literal { lexical, .. } => Some(lexical.as_str().unicode_len()),
        }
    }

    /// Equality by content.
    pub fn same(&self, other: &Term) -> (r: bool)
        ensures
            r == (self@ == other@),
    {
        match self {
            Term::Iri(a) => match other {
                Term::Iri(b) => same_text(a, b),
                _ => false,
            },
            Term::BlankNode(a) => match other {
                Term::BlankNode(b) => same_text(a, b),
                _ => false,
            },
            Term::Literal { lexical, datatype, language } => match other {
                Term::Literal { lexical: l2, datatype: d2, language: g2 } => {
                    same_text(lexical, l2) && same_text(datatype, d2) && same_opt_text(language, g2)
                },
                _ => false,
            },
        }
    }

    /// A copy with the same content.
    pub fn duplicate(&self) -> (t: Term)
        ensures
            t@ == self@,
    {
        match self {
            Term::Iri(a) => Term::Iri(a.clone()),
            Term::BlankNode(a) => Term::BlankNode(a.clone()),
            Term::Literal { lexical, datatype, language } => {
                let lang = match language {
                    Some(g) => Some(g.clone()),
                    None => None,
                };
                Term::Literal { lexical: lexical.clone(), datatype: datatype.clone(), language: lang }
            },
        }
    }
}


/// A literal by itself: lexical form, datatype IRI and language tag.
#[derive(Debug, Clone, PartialEq, Eq, Hash)]
pub struct Literal {
    pub lexical: String,
    pub datatype: String,
    pub language: Option<String>,
}

impl Literal {
    /// The term that the literal is.
    pub open spec fn term_view(&self) -> TermView {
        TermView::Literal {
            lexical: self.lexical@,
            datatype: self.datatype@,
            language: opt_text_view(self.language),
        }
    }

    /// A literal with a lexical form and a datatype, without language tag.
    pub fn new(lexical: &str, datatype: &str) -> (l: Literal)
        ensures
            l.term_view() == (TermView::Literal {
                lexical: lexical@,
                datatype: datatype@,
                language: None,
            }),
    {
        Literal {
            lexical: String::from_str(lexical),
            datatype: String::from_str(datatype),
            language: None,
        }
    }

    /// The literal as a term.
    pub fn into_term(self) -> (t: Term)
        ensures
            t@ == self.term_view(),
    {
        Term::Literal { lexical: self.lexical, datatype: self.datatype, language: self.language }
    }
}

} // verus!
