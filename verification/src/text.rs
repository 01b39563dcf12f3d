//! Text for ask-queries: terms in query syntax and integers in decimal.

use crate::term::{Term, TermView};
use vstd::prelude::*;
use vstd::string::*;

verus! {

/// Calls `String::push` of std, which appends one character to the string.
#[verifier::external_body]
fn push_char(s: &mut String, c: char)
    ensures
        final(s)@ == old(s)@.push(c),
{
    s.push(c);
}

/// The character of a decimal digit.
pub open spec fn digit_char(d: int) -> char {
    if d == 0 {
        '0'
    } else if d == 1 {
        '1'
    } else if d == 2 {
        '2'
    } else if d == 3 {
        '3'
    } else if d == 4 {
        '4'
    } else if d == 5 {
        '5'
    } else if d == 6 {
        '6'
    } else if d == 7 {
        '7'
    } else if d == 8 {
        '8'
    } else {
        '9'
    }
}

/// The decimal digits of a natural number, without leading zeros.
pub open spec fn digits(n: nat) -> Seq<char>
    decreases n,
{
    if n < 10 {
        seq![digit_char(n as int)]
    } else {
        digits(n / 10).push(digit_char((n % 10) as int))
    }
}

/// An integer in decimal, with a minus sign when it is negative.
pub open spec fn decimal_text(n: int) -> Seq<char> {
    if n < 0 {
        seq!['-'] + digits((-n) as nat)
    } else {
        digits(n as nat)
    }
}

fn digit(d: u128) -> (c: char)
    requires
        d < 10,
    ensures
        c == digit_char(d as int),
{
    if d == 0 {
        '0'
    } else if d == 1 {
        '1'
    } else if d == 2 {
        '2'
    } else if d == 3 {
        '3'
    } else if d == 4 {
        '4'
    } else if d == 5 {
        '5'
    } else if d == 6 {
        '6'
    } else if d == 7 {
        '7'
    } else if d == 8 {
        '8'
    } else {
        '9'
    }
}

/// Appends the decimal digits of `n`.
fn push_digits(s: &mut String, n: u128)
    ensures
        final(s)@ == old(s)@ + digits(n as nat),
    decreases n,
{
    if n < 10 {
        push_char(s, digit(n));
        assert(s@ =~= old(s)@ + digits(n as nat));
    } else {
        push_digits(s, n / 10);
        push_char(s, digit(n % 10));
        assert(s@ =~= old(s)@ + digits(n as nat));
    }
}

/// Appends an integer in decimal.
pub fn push_decimal(s: &mut String, n: isize)
    ensures
        final(s)@ == old(s)@ + decimal_text(n as int),
{
    let wide: i128 = n as i128;
    if wide < 0 {
        push_char(s, '-');
        let magnitude: u128 = (-wide) as u128;
        push_digits(s, magnitude);
        assert(s@ =~= old(s)@ + decimal_text(n as int));
    } else {
        push_digits(s, wide as u128);
    }
}

/// An integer in decimal.
pub fn decimal(n: isize) -> (s: String)
    ensures
        s@ == decimal_text(n as int),
{
    let mut s = String::new();
    push_decimal(&mut s, n);
    assert(s@ =~= decimal_text(n as int));
    s
}

/// What stands for a character inside a quoted string: quotes,
/// backslashes, line feeds and carriage returns are escaped.
pub open spec fn escaped_char(c: char) -> Seq<char> {
    if c == '"' {
        seq!['\\', '"']
    } else if c == '\\' {
        seq!['\\', '\\']
    } else if c == '\n' {
        seq!['\\', 'n']
    } else if c == '\r' {
        seq!['\\', 'r']
    } else {
        seq![c]
    }
}

/// The first `k` characters of a text, escaped.
pub open spec fn escaped_upto(text: Seq<char>, k: int) -> Seq<char>
    decreases k,
{
    if k <= 0 {
        Seq::empty()
    } else {
        escaped_upto(text, k - 1) + escaped_char(text[k - 1])
    }
}

/// A text with its characters escaped.
pub open spec fn escaped(text: Seq<char>) -> Seq<char> {
    escaped_upto(text, text.len() as int)
}

/// A term in query syntax: an IRI in angle brackets, a blank node after
/// `_:`, a literal in quotes followed by its language tag or, without one,
/// by its datatype.
pub open spec fn term_text(t: TermView) -> Seq<char> {
    match t {
        TermView::Iri(s) => seq!['<'] + s + seq!['>'],
        TermView::BlankNode(s) => seq!['_', ':'] + s,
        TermView::Literal { lexical, datatype, language } => match language {
            Some(tag) => seq!['"'] + escaped(lexical) + seq!['"', '@'] + tag,
            None => seq!['"'] + escaped(lexical) + seq!['"', '^', '^', '<'] + datatype + seq!['>'],
        },
    }
}

/// Appends a text with its characters escaped.
fn push_escaped(s: &mut String, text: &String)
    ensures
        final(s)@ == old(s)@ + escaped(text@),
{
    let n = text.as_str().unicode_len();
    let mut k: usize = 0;
    while k < n
        invariant
            k <= n,
            n == text@.len(),
            s@ == old(s)@ + escaped_upto(text@, k as int),
        decreases n - k,
    {
        let c = text.as_str().get_char(k);
        let ghost before = s@;
        if c == '"' {
            push_char(s, '\\');
            push_char(s, '"');
        } else if c == '\\' {
            push_char(s, '\\');
            push_char(s, '\\');
        } else if c == '\n' {
            push_char(s, '\\');
            push_char(s, 'n');
        } else if c == '\r' {
            push_char(s, '\\');
            push_char(s, 'r');
        } else {
            push_char(s, c);
        }
        assert(s@ =~= before + escaped_char(c));
        assert(s@ =~= old(s)@ + escaped_upto(text@, k + 1));
        k += 1;
    }
}

/// Appends a term in query syntax.
pub fn push_term(s: &mut String, term: &Term)
    ensures
        final(s)@ == old(s)@ + term_text(term@),
{
    match term {
        Term::Iri(iri) => {
            push_char(s, '<');
            s.append(iri.as_str());
            push_char(s, '>');
            assert(s@ =~= old(s)@ + term_text(term@));
        },
        Term::BlankNode(id) => {
            push_char(s, '_');
            push_char(s, ':');
            s.append(id.as_str());
            assert(s@ =~= old(s)@ + term_text(term@));
        },
        Term::Literal { lexical, datatype, language } => {
            push_char(s, '"');
            push_escaped(s, lexical);
            push_char(s, '"');
            match language {
                Some(tag) => {
                    push_char(s, '@');
                    s.append(tag.as_str());
                    assert(s@ =~= old(s)@ + term_text(term@));
                },
                None => {
                    push_char(s, '^');
                    push_char(s, '^');
                    push_char(s, '<');
                    s.append(datatype.as_str());
                    push_char(s, '>');
                    assert(s@ =~= old(s)@ + term_text(term@));
                },
            }
        },
    }
}

/// A term in query syntax.
pub fn render_term(term: &Term) -> (s: String)
    ensures
        s@ == term_text(term@),
{
    let mut s = String::new();
    push_term(&mut s, term);
    assert(s@ =~= term_text(term@));
    s
}

} // verus!
