//! The lexical layer of the compact schema syntax: whitespace, comments
//! and tokens, as functions on bytes and positions.

use vstd::prelude::*;

verus! {

/// A blank, a tab, a line feed or a carriage return.
pub open spec fn is_space(b: u8) -> bool {
    b == 32 || b == 9 || b == 10 || b == 13
}

/// A line feed or a carriage return.
pub open spec fn is_eol(b: u8) -> bool {
    b == 10 || b == 13
}

/// A star or a slash: what the body of a block comment does not hold.
pub open spec fn is_mark(b: u8) -> bool {
    b == 42 || b == 47
}

/// The end of the run of whitespace that starts at `i`.
pub open spec fn space_end(s: Seq<u8>, i: int) -> int
    decreases s.len() - i,
{
    if i < 0 || i >= s.len() || !is_space(s[i]) {
        i
    } else {
        space_end(s, i + 1)
    }
}

/// The end of the line that `i` lies in: the next end-of-line byte or the
/// end of the input.
pub open spec fn line_end(s: Seq<u8>, i: int) -> int
    decreases s.len() - i,
{
    if i < 0 || i >= s.len() || is_eol(s[i]) {
        i
    } else {
        line_end(s, i + 1)
    }
}

/// The end of the run of bytes from `i` that are neither star nor slash.
pub open spec fn plain_end(s: Seq<u8>, i: int) -> int
    decreases s.len() - i,
{
    if i < 0 || i >= s.len() || is_mark(s[i]) {
        i
    } else {
        plain_end(s, i + 1)
    }
}

/// Whether the bytes of `token` stand at `i`.
pub open spec fn has_at(s: Seq<u8>, i: int, token: Seq<u8>) -> bool {
    &&& 0 <= i
    &&& i + token.len() <= s.len()
    &&& forall|k: int| 0 <= k < token.len() ==> s[i + k] == #[trigger] token[k]
}

/// The lower-case form of an ASCII letter; any other byte is itself.
pub open spec fn folded(b: u8) -> u8 {
    if 65 <= b <= 90 {
        (b + 32) as u8
    } else {
        b
    }
}

/// Whether the bytes of `token` stand at `i`, letters compared without
/// regard to case.
pub open spec fn has_at_no_case(s: Seq<u8>, i: int, token: Seq<u8>) -> bool {
    &&& 0 <= i
    &&& i + token.len() <= s.len()
    &&& forall|k: int| 0 <= k < token.len() ==> folded(s[i + k]) == folded(#[trigger] token[k])
}

/// The end of the block comment that starts at `i`: `/*`, a body of one
/// byte at least without star or slash, and `*/`.
pub open spec fn multi_comment_end(s: Seq<u8>, i: int) -> Option<int> {
    if has_at(s, i, seq![47u8, 42u8]) {
        let k = plain_end(s, i + 2);
        if k > i + 2 && has_at(s, k, seq![42u8, 47u8]) {
            Some(k + 2)
        } else {
            None
        }
    } else {
        None
    }
}

/// The end of the comment that starts at `i`: a line comment from `#` to
/// the end of the line, or a block comment.
pub open spec fn comment_end(s: Seq<u8>, i: int) -> Option<int> {
    if 0 <= i < s.len() && s[i] == 35 {
        Some(line_end(s, i + 1))
    } else {
        multi_comment_end(s, i)
    }
}

/// The end of the run of whitespace or of the comment that starts at `i`.
pub open spec fn piece_end(s: Seq<u8>, i: int) -> Option<int> {
    if 0 <= i < s.len() && is_space(s[i]) {
        Some(space_end(s, i))
    } else {
        comment_end(s, i)
    }
}

/// The position after all whitespace and comments that start at `i`.
pub open spec fn tws_end(s: Seq<u8>, i: int) -> int
    decreases s.len() - i,
{
    match piece_end(s, i) {
        Some(j) => if i < j <= s.len() {
            tws_end(s, j)
        } else {
            i
        },
        None => i,
    }
}

/// The runs end inside the input and after their start.
pub proof fn lemma_run_ends(s: Seq<u8>, i: int)
    requires
        0 <= i <= s.len(),
    ensures
        i <= space_end(s, i) <= s.len(),
        i <= line_end(s, i) <= s.len(),
        i <= plain_end(s, i) <= s.len(),
        i < s.len() && is_space(s[i]) ==> i < space_end(s, i),
    decreases s.len() - i,
{
    if i < s.len() {
        lemma_run_ends(s, i + 1);
    }
}

/// A piece ends inside the input and after its start.
pub proof fn lemma_piece_ends(s: Seq<u8>, i: int)
    requires
        0 <= i <= s.len(),
    ensures
        piece_end(s, i) matches Some(j) ==> i < j <= s.len(),
{
    lemma_run_ends(s, i);
    if i < s.len() {
        lemma_run_ends(s, i + 1);
    }
    if i + 2 <= s.len() {
        lemma_run_ends(s, i + 2);
    }
}

/// Skipping ends inside the input and not before its start.
pub proof fn lemma_tws_ends(s: Seq<u8>, i: int)
    requires
        0 <= i <= s.len(),
    ensures
        i <= tws_end(s, i) <= s.len(),
    decreases s.len() - i,
{
    lemma_piece_ends(s, i);
    match piece_end(s, i) {
        Some(j) => {
            lemma_tws_ends(s, j);
        },
        None => {},
    }
}

/// The end of the run of whitespace that starts at `at`.
fn skip_spaces(input: &[u8], at: usize) -> (end: usize)
    requires
        at <= input@.len(),
    ensures
        end == space_end(input@, at as int),
        at <= end <= input@.len(),
{
    let mut k = at;
    while k < input.len() && (input[k] == 32 || input[k] == 9 || input[k] == 10 || input[k] == 13)
        invariant
            at <= k <= input@.len(),
            space_end(input@, k as int) == space_end(input@, at as int),
        decreases input@.len() - k,
    {
        k += 1;
    }
    k
}

/// The end of the line that `at` lies in.
fn skip_line(input: &[u8], at: usize) -> (end: usize)
    requires
        at <= input@.len(),
    ensures
        end == line_end(input@, at as int),
        at <= end <= input@.len(),
{
    let mut k = at;
    while k < input.len() && !(input[k] == 10 || input[k] == 13)
        invariant
            at <= k <= input@.len(),
            line_end(input@, k as int) == line_end(input@, at as int),
        decreases input@.len() - k,
    {
        k += 1;
    }
    k
}

/// The end of the run of bytes from `at` that are neither star nor slash.
fn skip_plain(input: &[u8], at: usize) -> (end: usize)
    requires
        at <= input@.len(),
    ensures
        end == plain_end(input@, at as int),
        at <= end <= input@.len(),
{
    let mut k = at;
    while k < input.len() && !(input[k] == 42 || input[k] == 47)
        invariant
            at <= k <= input@.len(),
            plain_end(input@, k as int) == plain_end(input@, at as int),
        decreases input@.len() - k,
    {
        k += 1;
    }
    k
}

/// Whether the two bytes stand at `at`.
fn two_at(input: &[u8], at: usize, a: u8, b: u8) -> (r: bool)
    ensures
        r == has_at(input@, at as int, seq![a, b]),
        r ==> at + 2 <= input@.len(),
{
    if at < input.len() && input.len() - at >= 2 {
        let r = input[at] == a && input[at + 1] == b;
        proof {
            let token = seq![a, b];
            if r {
                assert forall|k: int| 0 <= k < token.len() implies input@[at + k]
                    == #[trigger] token[k] by {
                    if k == 0 {
                    } else {
                        assert(k == 1);
                    }
                }
            } else if input[at as int] != a {
                assert(token[0] == a);
            } else {
                assert(token[1] == b);
            }
        }
        r
    } else {
        false
    }
}

/// Recognises a block comment at `at` and returns the position after it.
pub fn multi_comment(input: &[u8], at: usize) -> (r: Option<usize>)
    ensures
        r is Some <==> multi_comment_end(input@, at as int) is Some,
        r matches Some(end) ==> multi_comment_end(input@, at as int) == Some(end as int) && at
            < end <= input@.len(),
{
    let len = input.len();
    if !two_at(input, at, 47, 42) {
        return None;
    }
    assert(at + 2 <= len);
    let body = at + 2;
    let k = skip_plain(input, body);
    if k > body && two_at(input, k, 42, 47) {
        Some(k + 2)
    } else {
        None
    }
}

/// Recognises a comment at `at`, a line comment or a block comment, and
/// returns the position after it.
pub fn comment(input: &[u8], at: usize) -> (r: Option<usize>)
    ensures
        r is Some <==> comment_end(input@, at as int) is Some,
        r matches Some(end) ==> comment_end(input@, at as int) == Some(end as int) && at < end
            <= input@.len(),
{
    if at < input.len() && input[at] == 35 {
        Some(skip_line(input, at + 1))
    } else {
        multi_comment(input, at)
    }
}

/// Recognises a run of whitespace or a comment at `at`.
fn piece(input: &[u8], at: usize) -> (r: Option<usize>)
    requires
        at <= input@.len(),
    ensures
        r is Some <==> piece_end(input@, at as int) is Some,
        r matches Some(end) ==> piece_end(input@, at as int) == Some(end as int) && at < end
            <= input@.len(),
{
    proof {
        lemma_piece_ends(input@, at as int);
    }
    if at < input.len() && (input[at] == 32 || input[at] == 9 || input[at] == 10 || input[at]
        == 13) {
        Some(skip_spaces(input, at))
    } else {
        comment(input, at)
    }
}

/// Skips whitespace and comments, as many as stand at `at`, and returns
/// the position after them. A position beyond the input is returned as it
/// is.
pub fn tws0(input: &[u8], at: usize) -> (end: usize)
    ensures
        end == tws_end(input@, at as int),
        at <= end,
        at <= input@.len() ==> end <= input@.len(),
{
    if at > input.len() {
        return at;
    }
    let mut k = at;
    loop
        invariant
            at <= k <= input@.len(),
            tws_end(input@, k as int) == tws_end(input@, at as int),
        decreases input@.len() - k,
    {
        match piece(input, k) {
            Some(j) => {
                k = j;
            },
            None => {
                return k;
            },
        }
    }
}

/// Skips whitespace and comments, of which one at least must stand at
/// `at`, and returns the position after them.
pub fn tws1(input: &[u8], at: usize) -> (r: Option<usize>)
    ensures
        r is Some <==> at <= input@.len() && piece_end(input@, at as int) is Some,
        r matches Some(end) ==> end == tws_end(input@, at as int) && at < end <= input@.len(),
{
    if at > input.len() {
        return None;
    }
    match piece(input, at) {
        Some(j) => {
            proof {
                lemma_tws_ends(input@, j as int);
            }
            Some(tws0(input, j))
        },
        None => None,
    }
}


/// What a parser missed.
#[derive(Debug)]
pub enum ErrorKind {
    /// The token was expected.
    ExpectedToken(Vec<u8>),
    /// The bytes of a tag do not stand at the position.
    Tag,
}

/// The mathematical value of an [`ErrorKind`].
pub enum ErrorKindView {
    ExpectedToken(Seq<u8>),
    Tag,
}

impl View for ErrorKind {
    type V = ErrorKindView;

    open spec fn view(&self) -> ErrorKindView {
        match *self {
            ErrorKind::ExpectedToken(t) => ErrorKindView::ExpectedToken(t@),
            ErrorKind::Tag => ErrorKindView::Tag,
        }
    }
}

/// An error kind with the position it was met at.
#[derive(Debug)]
pub struct Located {
    pub kind: ErrorKind,
    pub at: usize,
}

/// The mathematical value of a [`Located`].
pub struct LocatedView {
    pub kind: ErrorKindView,
    pub at: usize,
}

impl View for Located {
    type V = LocatedView;

    open spec fn view(&self) -> LocatedView {
        LocatedView { kind: self.kind@, at: self.at }
    }
}

/// The views of a list of located errors.
pub open spec fn located_views(context: Seq<Located>) -> Seq<LocatedView> {
    Seq::new(context.len(), |k: int| context[k]@)
}

/// A parse error: what was missed, where, and the errors below it, the
/// nearest first.
#[derive(Debug)]
pub struct ParseError {
    pub kind: ErrorKind,
    pub at: usize,
    pub context: Vec<Located>,
}

/// The mathematical value of a [`ParseError`].
pub struct ParseErrorView {
    pub kind: ErrorKindView,
    pub at: usize,
    pub context: Seq<LocatedView>,
}

impl View for ParseError {
    type V = ParseErrorView;

    open spec fn view(&self) -> ParseErrorView {
        ParseErrorView { kind: self.kind@, at: self.at, context: located_views(self.context@) }
    }
}

/// How a parser fails: for want of input, with an error that another
/// parser may recover from, or for good.
#[derive(Debug)]
pub enum Failure {
    Incomplete,
    Error(ParseError),
    Failure(ParseError),
}

/// The mathematical value of a [`Failure`].
pub enum FailureView {
    Incomplete,
    Error(ParseErrorView),
    Failure(ParseErrorView),
}

impl View for Failure {
    type V = FailureView;

    open spec fn view(&self) -> FailureView {
        match *self {
            Failure::Incomplete => FailureView::Incomplete,
            Failure::Error(e) => FailureView::Error(e@),
            Failure::Failure(e) => FailureView::Failure(e@),
        }
    }
}

/// An error of kind `kind` at `at` put above the error `below`.
pub open spec fn above(kind: ErrorKindView, at: usize, below: ParseErrorView) -> ParseErrorView {
    ParseErrorView {
        kind,
        at,
        context: seq![LocatedView { kind: below.kind, at: below.at }] + below.context,
    }
}

/// A failure with an error of kind `kind` at `at` put above its error;
/// a failure for want of input stays as it is.
pub open spec fn relabelled(kind: ErrorKindView, at: usize, failure: FailureView) -> FailureView {
    match failure {
        FailureView::Incomplete => FailureView::Incomplete,
        FailureView::Error(e) => FailureView::Error(above(kind, at, e)),
        FailureView::Failure(e) => FailureView::Failure(above(kind, at, e)),
    }
}

impl ParseError {
    /// An error of kind `kind` at `at` above the error `below`.
    pub fn over(kind: ErrorKind, at: usize, below: ParseError) -> (e: ParseError)
        ensures
            e@ == above(kind@, at, below@),
    {
        let ParseError { kind: k, at: a, context: c } = below;
        let mut context: Vec<Located> = Vec::new();
        context.push(Located { kind: k, at: a });
        let mut rest = c;
        let ghost rest_view = located_views(rest@);
        context.append(&mut rest);
        let e = ParseError { kind, at, context };
        assert(e@.context =~= seq![LocatedView { kind: k@, at: a }] + rest_view);
        e
    }
}

/// Changes the error of a parser's result: an error or a failure is put
/// below a new error of kind `kind` at `at`, the position the parser
/// started from. A success and a failure for want of input stay as they
/// are.
pub fn map_error<T>(result: Result<T, Failure>, kind: ErrorKind, at: usize) -> (r: Result<
    T,
    Failure,
>)
    ensures
        result is Ok ==> r == result,
        result matches Err(f) ==> r matches Err(g) && g@ == relabelled(kind@, at, f@),
{
    match result {
        Ok(v) => Ok(v),
        Err(Failure::Incomplete) => Err(Failure::Incomplete),
        Err(Failure::Error(e)) => Err(Failure::Error(ParseError::over(kind, at, e))),
        Err(Failure::Failure(e)) => Err(Failure::Failure(ParseError::over(kind, at, e))),
    }
}

/// A copy of the bytes.
fn copy_bytes(bytes: &[u8]) -> (v: Vec<u8>)
    ensures
        v@ == bytes@,
{
    let mut v: Vec<u8> = Vec::new();
    let mut k: usize = 0;
    while k < bytes.len()
        invariant
            k <= bytes@.len(),
            v@ == bytes@.subrange(0, k as int),
        decreases bytes@.len() - k,
    {
        v.push(bytes[k]);
        assert(v@ =~= bytes@.subrange(0, k + 1));
        k += 1;
    }
    assert(v@ =~= bytes@);
    v
}

fn fold(b: u8) -> (r: u8)
    ensures
        r == folded(b),
{
    if 65 <= b && b <= 90 {
        b + 32
    } else {
        b
    }
}

/// Recognises the bytes of `token` at `at`, with or without regard to the
/// case of letters, and returns the position after them.
fn tag(input: &[u8], at: usize, token: &[u8], no_case: bool) -> (r: Option<usize>)
    ensures
        r is Some <==> if no_case {
            has_at_no_case(input@, at as int, token@)
        } else {
            has_at(input@, at as int, token@)
        },
        r matches Some(end) ==> end == at + token@.len(),
{
    let len = input.len();
    if at > len || token.len() > len - at {
        return None;
    }
    let mut k: usize = 0;
    while k < token.len()
        invariant
            k <= token@.len(),
            len == input@.len(),
            at + token@.len() <= len,
            !no_case ==> forall|j: int| 0 <= j < k ==> input@[at + j] == #[trigger] token@[j],
            no_case ==> forall|j: int|
                0 <= j < k ==> folded(input@[at + j]) == folded(#[trigger] token@[j]),
        decreases token@.len() - k,
    {
        let same = if no_case {
            fold(input[at + k]) == fold(token[k])
        } else {
            input[at + k] == token[k]
        };
        if !same {
            return None;
        }
        k += 1;
    }
    Some(at + token.len())
}

/// The error of a token that was expected at `at` and whose bytes were
/// missed at `tag_at`.
pub open spec fn token_error(token: Seq<u8>, at: usize, tag_at: usize) -> FailureView {
    FailureView::Error(
        ParseErrorView {
            kind: ErrorKindView::ExpectedToken(token),
            at,
            context: seq![LocatedView { kind: ErrorKindView::Tag, at: tag_at }],
        },
    )
}

/// The failure of a token that was expected at `at` and missed at `tag_at`.
fn expected(token: &[u8], at: usize, tag_at: usize) -> (f: Failure)
    ensures
        f@ == token_error(token@, at, tag_at),
{
    let below = ParseError { kind: ErrorKind::Tag, at: tag_at, context: Vec::new() };
    let e = ParseError::over(ErrorKind::ExpectedToken(copy_bytes(token)), at, below);
    assert(e@.context =~= seq![LocatedView { kind: ErrorKindView::Tag, at: tag_at }]);
    Failure::Error(e)
}

/// Recognises a token at `at` and returns the position after it.
pub fn token(input: &[u8], at: usize, word: &[u8]) -> (r: Result<usize, Failure>)
    ensures
        r is Ok <==> has_at(input@, at as int, word@),
        r matches Ok(end) ==> end == at + word@.len(),
        r matches Err(f) ==> f@ == token_error(word@, at, at),
{
    match tag(input, at, word, false) {
        Some(end) => Ok(end),
        None => Err(expected(word, at, at)),
    }
}

/// Recognises a token with whitespace and comments before and after it,
/// and returns the position after them.
pub fn token_tws(input: &[u8], at: usize, word: &[u8]) -> (r: Result<usize, Failure>)
    ensures
        r is Ok <==> has_at(input@, tws_end(input@, at as int), word@),
        r matches Ok(end) ==> end == tws_end(
            input@,
            tws_end(input@, at as int) + word@.len(),
        ),
        r matches Err(f) ==> f@ == token_error(word@, at, tws_end(input@, at as int) as usize),
{
    let start = tws0(input, at);
    match tag(input, start, word, false) {
        Some(end) => Ok(tws0(input, end)),
        None => Err(expected(word, at, start)),
    }
}

/// Recognises a token without regard to the case of its letters, with
/// whitespace and comments before and after it, and returns the position
/// after them.
pub fn tag_no_case_tws(input: &[u8], at: usize, word: &[u8]) -> (r: Result<usize, Failure>)
    ensures
        r is Ok <==> has_at_no_case(input@, tws_end(input@, at as int), word@),
        r matches Ok(end) ==> end == tws_end(
            input@,
            tws_end(input@, at as int) + word@.len(),
        ),
        r matches Err(f) ==> f@ == token_error(word@, at, tws_end(input@, at as int) as usize),
{
    let start = tws0(input, at);
    match tag(input, start, word, true) {
        Some(end) => Ok(tws0(input, end)),
        None => Err(expected(word, at, start)),
    }
}


/// The position after the whitespace and comments at `at`.
pub open spec fn skipped(s: Seq<u8>, at: usize) -> usize {
    tws_end(s, at as int) as usize
}

/// The items of a list were parsed one after the other: the first after
/// the whitespace at `at`, each further one after a separator that
/// followed the item before, whitespace skipped before the separator and
/// after it. `ends[k]` is where the `k`-th item ended, `seps[k]` where the
/// separator before it ended.
pub open spec fn run_of<O, F: Fn(usize) -> Result<(usize, O), Failure>, G: Fn(usize) -> Result<
    usize,
    Failure,
>>(
    input: Seq<u8>,
    parser_many: F,
    sep: G,
    at: usize,
    items: Seq<O>,
    ends: Seq<usize>,
    seps: Seq<usize>,
) -> bool {
    &&& items.len() >= 1
    &&& ends.len() == items.len()
    &&& seps.len() == items.len()
    &&& call_ensures(parser_many, (skipped(input, at),), Ok((ends[0], items[0])))
    &&& forall|k: int|
        1 <= k < items.len() ==> {
            &&& call_ensures(sep, (skipped(input, ends[k - 1]),), Ok(#[trigger] seps[k]))
            &&& call_ensures(parser_many, (skipped(input, seps[k]),), Ok((ends[k], items[k])))
            &&& skipped(input, ends[k - 1]) < ends[k] <= input.len()
        }
}

/// The list ends at `end`, after an item that ended at `last`: no
/// separator follows, or a separator follows and no item after it. An
/// item that ends beyond the input or not after the place where the
/// separator was looked for counts as none.
pub open spec fn stops_at<O, F: Fn(usize) -> Result<(usize, O), Failure>, G: Fn(usize) -> Result<
    usize,
    Failure,
>>(input: Seq<u8>, parser_many: F, sep: G, last: usize, end: usize) -> bool {
    let p = skipped(input, last);
    ||| end == p && exists|f: Failure| call_ensures(sep, (p,), Err(f))
    ||| exists|q: usize| #[trigger]
        call_ensures(sep, (p,), Ok(q)) && end == skipped(input, q) && {
            ||| exists|f: Failure| call_ensures(parser_many, (end,), Err(f))
            ||| exists|q2: usize, o: O|
                call_ensures(parser_many, (end,), Ok((q2, o))) && !(p < q2 <= input.len())
        }
}

/// What a parser's result comes to: the value of a success, nothing for a
/// failure.
pub open spec fn outcome<T>(r: Result<T, Failure>) -> Option<T> {
    match r {
        Ok(a) => Some(a),
        Err(_) => None,
    }
}

/// The parser does at every position what the function `rule` says: it
/// succeeds with that value or fails where the function gives none.
pub open spec fn follows<T, F: Fn(usize) -> Result<T, Failure>>(
    f: F,
    rule: spec_fn(usize) -> Option<T>,
) -> bool {
    forall|p: usize, r: Result<T, Failure>| call_ensures(f, (p,), r) ==> outcome(r) == rule(p)
}

/// The items of a list and the position where it ended.
pub struct Listed<O> {
    pub items: Seq<O>,
    pub end: usize,
}

/// The list that goes on after an item that ended at `last`, `items`
/// holding the items so far: as long as a separator follows and an item
/// after it, the item is added. An item that ends beyond the input or not
/// after the place where the separator was looked for counts as none.
pub open spec fn rest_of_list<O>(
    input: Seq<u8>,
    item_rule: spec_fn(usize) -> Option<(usize, O)>,
    sep_rule: spec_fn(usize) -> Option<usize>,
    last: usize,
    items: Seq<O>,
) -> Listed<O>
    decreases input.len() - last,
{
    let p = skipped(input, last);
    match sep_rule(p) {
        None => Listed { items, end: p },
        Some(q) => {
            let start = skipped(input, q);
            match item_rule(start) {
                None => Listed { items, end: start },
                Some((q2, v)) => if last <= p && p < q2 <= input.len() {
                    rest_of_list(input, item_rule, sep_rule, q2, items.push(v))
                } else {
                    Listed { items, end: start }
                },
            }
        },
    }
}

/// The list that is read from `at` by parsers that do what `item_rule` and
/// `sep_rule` say: the items and the position where the list ended, or
/// nothing where the first item fails.
pub open spec fn listed<O>(
    input: Seq<u8>,
    item_rule: spec_fn(usize) -> Option<(usize, O)>,
    sep_rule: spec_fn(usize) -> Option<usize>,
    at: usize,
) -> Option<Listed<O>> {
    match item_rule(skipped(input, at)) {
        None => None,
        Some((q, v)) => Some(rest_of_list(input, item_rule, sep_rule, q, seq![v])),
    }
}

/// Whether `maker` made `out` of the vector, which holds `items`.
pub open spec fn made_of<O, O2, H: Fn(Vec<O>) -> O2>(
    maker: H,
    vector: Vec<O>,
    items: Seq<O>,
    out: O2,
) -> bool {
    vector@ == items && call_ensures(maker, (vector,), out)
}

/// Whether what was returned is the list that was read: a failure where
/// there is no list, else the same end and what `maker` made of the same
/// items.
pub open spec fn reads_as<O, O2, H: Fn(Vec<O>) -> O2>(
    r: Result<(usize, O2), Failure>,
    list: Option<Listed<O>>,
    maker: H,
) -> bool {
    match list {
        None => r is Err,
        Some(l) => r matches Ok((end, out)) && end == l.end && exists|vector: Vec<O>|
            made_of(maker, vector, l.items, out),
    }
}

/// Parses a list of one item at least, the items parsed by `parser_many`
/// and separated by what `sep` parses, with whitespace and comments
/// allowed around both, and hands the items to `maker`. Fails only where
/// the first item fails, with that failure. Returns the position where the
/// list ended: a separator that no item follows is consumed. Where the
/// parsers do at every position what two functions say, the items and the
/// end are those of [`listed`] for these functions.
pub fn many1_sep<O, O2, F, G, H>(input: &[u8], parser_many: F, sep: G, maker: H, at: usize) -> (r:
    Result<(usize, O2), Failure>) where
    F: Fn(usize) -> Result<(usize, O), Failure>,
    G: Fn(usize) -> Result<usize, Failure>,
    H: Fn(Vec<O>) -> O2,

    requires
        forall|p: usize| call_requires(parser_many, (p,)),
        forall|p: usize| call_requires(sep, (p,)),
        forall|v: Vec<O>| call_requires(maker, (v,)),
    ensures
        match r {
            Err(f) => call_ensures(parser_many, (skipped(input@, at),), Err(f)),
            Ok((end, out)) => exists|items: Vec<O>, ends: Seq<usize>, seps: Seq<usize>|
                #![trigger run_of(input@, parser_many, sep, at, items@, ends, seps)]
                run_of(input@, parser_many, sep, at, items@, ends, seps) && stops_at(
                    input@,
                    parser_many,
                    sep,
                    ends.last(),
                    end,
                ) && call_ensures(maker, (items,), out),
        },
        forall|item_rule: spec_fn(usize) -> Option<(usize, O)>, sep_rule: spec_fn(usize) -> Option<usize>|
            #![trigger follows(parser_many, item_rule), follows(sep, sep_rule)]
            follows(parser_many, item_rule) && follows(sep, sep_rule) ==> reads_as(
                r,
                listed(input@, item_rule, sep_rule, at),
                maker,
            ),
{
    let len = input.len();
    let first = tws0(input, at);
    let (mut i, v0) = match parser_many(first) {
        Ok(found) => found,
        Err(e) => {
            assert(call_ensures(parser_many, (first,), Err::<(usize, O), Failure>(e)));
            return Err(e);
        },
    };
    assert(call_ensures(parser_many, (first,), Ok::<(usize, O), Failure>((i, v0))));
    let mut vs: Vec<O> = Vec::new();
    vs.push(v0);
    assert(vs@ =~= seq![v0]);
    let ghost mut ends: Seq<usize> = seq![i];
    let ghost mut seps: Seq<usize> = seq![0usize];
    loop
        invariant
            len == input@.len(),
            forall|item_rule: spec_fn(usize) -> Option<(usize, O)>, sep_rule: spec_fn(usize) -> Option<usize>|
                #![trigger follows(parser_many, item_rule), follows(sep, sep_rule)]
                follows(parser_many, item_rule) && follows(sep, sep_rule) ==> listed(
                    input@,
                    item_rule,
                    sep_rule,
                    at,
                ) == Some(rest_of_list(input@, item_rule, sep_rule, i, vs@)),
            forall|p: usize| call_requires(parser_many, (p,)),
            forall|p: usize| call_requires(sep, (p,)),
            forall|v: Vec<O>| call_requires(maker, (v,)),
            run_of(input@, parser_many, sep, at, vs@, ends, seps),
            ends.last() == i,
        decreases len - i,
    {
        let p = tws0(input, i);
        let q = match sep(p) {
            Ok(q) => q,
            Err(f) => {
                let ghost items = vs;
                let out = maker(vs);
                proof {
                    assert(call_ensures(sep, (p,), Err::<usize, Failure>(f)));
                    assert(stops_at(input@, parser_many, sep, i, p));
                    assert(run_of(input@, parser_many, sep, at, items@, ends, seps));
                    let rr = Ok::<(usize, O2), Failure>((p, out));
                    assert forall|
                        item_rule: spec_fn(usize) -> Option<(usize, O)>,
                        sep_rule: spec_fn(usize) -> Option<usize>,
                    |
                        #![trigger follows(parser_many, item_rule), follows(sep, sep_rule)]
                        follows(parser_many, item_rule) && follows(sep, sep_rule) implies reads_as(
                        rr,
                        listed(input@, item_rule, sep_rule, at),
                        maker,
                    ) by {
                        let l = rest_of_list(input@, item_rule, sep_rule, i, items@);
                        assert(skipped(input@, i) == p);
                        assert(sep_rule(p) == outcome(Err::<usize, Failure>(f)));
                        assert(l == Listed { items: items@, end: p });
                        assert(made_of(maker, items, l.items, rr->Ok_0.1));
                    }
                }
                return Ok((p, out));
            },
        };
        assert(call_ensures(sep, (p,), Ok::<usize, Failure>(q)));
        let start = tws0(input, q);
        match parser_many(start) {
            Ok((q2, v)) => {
                if p < q2 && q2 <= len {
                    let ghost before = vs@;
                    let ghost old_ends = ends;
                    let ghost old_seps = seps;
                    vs.push(v);
                    proof {
                        ends = ends.push(q2);
                        seps = seps.push(q);
                        assert forall|k: int| 1 <= k < vs@.len() implies {
                            &&& call_ensures(
                                sep,
                                (skipped(input@, ends[k - 1]),),
                                Ok::<usize, Failure>(#[trigger] seps[k]),
                            )
                            &&& call_ensures(
                                parser_many,
                                (skipped(input@, seps[k]),),
                                Ok::<(usize, O), Failure>((ends[k], vs@[k])),
                            )
                            &&& skipped(input@, ends[k - 1]) < ends[k] <= input@.len()
                        } by {
                            if k < before.len() {
                                assert(seps[k] == old_seps[k]);
                                assert(ends[k] == old_ends[k]);
                                assert(ends[k - 1] == old_ends[k - 1]);
                                assert(vs@[k] == before[k]);
                            }
                        }
                        assert(ends[0] == old_ends[0]);
                        assert(vs@[0] == before[0]);
                        assert forall|
                            item_rule: spec_fn(usize) -> Option<(usize, O)>,
                            sep_rule: spec_fn(usize) -> Option<usize>,
                        |
                            #![trigger follows(parser_many, item_rule), follows(sep, sep_rule)]
                            follows(parser_many, item_rule) && follows(sep, sep_rule) implies listed(
                            input@,
                            item_rule,
                            sep_rule,
                            at,
                        ) == Some(rest_of_list(input@, item_rule, sep_rule, q2, vs@)) by {
                            assert(skipped(input@, i) == p);
                            assert(skipped(input@, q) == start);
                            assert(sep_rule(p) == outcome(Ok::<usize, Failure>(q)));
                            assert(item_rule(start) == outcome(
                                Ok::<(usize, O), Failure>((q2, v)),
                            ));
                            assert(vs@ =~= before.push(v));
                            assert(rest_of_list(input@, item_rule, sep_rule, i, before)
                                == rest_of_list(input@, item_rule, sep_rule, q2, before.push(v)));
                        }
                    }
                    i = q2;
                } else {
                    let ghost items = vs;
                    let out = maker(vs);
                    proof {
                        assert(call_ensures(sep, (p,), Ok::<usize, Failure>(q)));
                        assert(call_ensures(
                            parser_many,
                            (start,),
                            Ok::<(usize, O), Failure>((q2, v)),
                        ));
                        assert(stops_at(input@, parser_many, sep, i, start));
                        let rr = Ok::<(usize, O2), Failure>((start, out));
                        assert forall|
                            item_rule: spec_fn(usize) -> Option<(usize, O)>,
                            sep_rule: spec_fn(usize) -> Option<usize>,
                        |
                            #![trigger follows(parser_many, item_rule), follows(sep, sep_rule)]
                            follows(parser_many, item_rule) && follows(sep, sep_rule) implies reads_as(
                            rr,
                            listed(input@, item_rule, sep_rule, at),
                            maker,
                        ) by {
                            let l = rest_of_list(input@, item_rule, sep_rule, i, items@);
                            assert(skipped(input@, i) == p);
                            assert(skipped(input@, q) == start);
                            assert(sep_rule(p) == outcome(Ok::<usize, Failure>(q)));
                            assert(item_rule(start) == outcome(
                                Ok::<(usize, O), Failure>((q2, v)),
                            ));
                            assert(l == Listed { items: items@, end: start });
                            assert(made_of(maker, items, l.items, rr->Ok_0.1));
                        }
                    }
                    return Ok((start, out));
                }
            },
            Err(f) => {
                let ghost items = vs;
                let out = maker(vs);
                proof {
                    assert(call_ensures(sep, (p,), Ok::<usize, Failure>(q)));
                    assert(call_ensures(parser_many, (start,), Err::<(usize, O), Failure>(f)));
                    assert(stops_at(input@, parser_many, sep, i, start));
                    let rr = Ok::<(usize, O2), Failure>((start, out));
                    assert forall|
                        item_rule: spec_fn(usize) -> Option<(usize, O)>,
                        sep_rule: spec_fn(usize) -> Option<usize>,
                    |
                        #![trigger follows(parser_many, item_rule), follows(sep, sep_rule)]
                        follows(parser_many, item_rule) && follows(sep, sep_rule) implies reads_as(
                        rr,
                        listed(input@, item_rule, sep_rule, at),
                        maker,
                    ) by {
                        let l = rest_of_list(input@, item_rule, sep_rule, i, items@);
                        assert(skipped(input@, i) == p);
                        assert(skipped(input@, q) == start);
                        assert(sep_rule(p) == outcome(Ok::<usize, Failure>(q)));
                        assert(item_rule(start) == outcome(Err::<(usize, O), Failure>(f)));
                        assert(l == Listed { items: items@, end: start });
                        assert(made_of(maker, items, l.items, rr->Ok_0.1));
                    }
                }
                return Ok((start, out));
            },
        }
    }
}

} // verus!
