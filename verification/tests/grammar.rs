use shape_validation::grammar::{
    comment, many1_sep, map_error, multi_comment, tag_no_case_tws, token, token_tws, tws0, tws1,
    ErrorKind, Failure, Located, ParseError,
};

fn digit(input: &[u8], at: usize) -> Result<(usize, u8), Failure> {
    match input.get(at) {
        Some(b) if b.is_ascii_digit() => Ok((at + 1, b - b'0')),
        _ => Err(Failure::Error(ParseError { kind: ErrorKind::Tag, at, context: Vec::new() })),
    }
}

fn comma(input: &[u8], at: usize) -> Result<usize, Failure> {
    token(input, at, b",")
}

fn is_expected(f: &Failure, word: &[u8], at: usize, tag_at: usize) -> bool {
    match f {
        Failure::Error(ParseError { kind: ErrorKind::ExpectedToken(t), at: a, context }) => {
            t.as_slice() == word
                && *a == at
                && context.len() == 1
                && matches!(&context[0], Located { kind: ErrorKind::Tag, at: b } if *b == tag_at)
        }
        _ => false,
    }
}

#[test]
fn line_comment_ends_at_the_end_of_the_line() {
    assert_eq!(comment(b"# hello\nrest", 0), Some(7));
    assert_eq!(comment(b"# hello\r\nrest", 0), Some(7));
    assert_eq!(comment(b"#", 0), Some(1));
    assert_eq!(comment(b"#\n", 0), Some(1));
    assert_eq!(comment(b"a # b", 2), Some(5));
    assert_eq!(comment(b"a # b", 0), None);
    assert_eq!(comment(b"", 0), None);
    assert_eq!(comment(b"#", 1), None);
    assert_eq!(comment(b"#", 7), None);
}

#[test]
fn block_comment_has_a_body_without_star_or_slash() {
    assert_eq!(multi_comment(b"/* a */ b", 0), Some(7));
    assert_eq!(comment(b"/* a */ b", 0), Some(7));
    assert_eq!(multi_comment(b"x/*y*/", 1), Some(6));
    assert_eq!(multi_comment(b"/**/", 0), None);
    assert_eq!(multi_comment(b"/* a*b */", 0), None);
    assert_eq!(multi_comment(b"/* a/b */", 0), None);
    assert_eq!(multi_comment(b"/* a ", 0), None);
    assert_eq!(multi_comment(b"/* a *", 0), None);
    assert_eq!(multi_comment(b"/", 0), None);
    assert_eq!(multi_comment(b"// a", 0), None);
    assert_eq!(multi_comment(b"/* a */", usize::MAX), None);
}

#[test]
fn tws0_skips_whitespace_and_comments() {
    let input = b"  # c\n /* x */\t\r\n foo # d";
    assert_eq!(tws0(input, 0), 18);
    assert_eq!(&input[18..21], b"foo");
    assert_eq!(tws0(input, 18), 18);
    assert_eq!(tws0(input, 21), input.len());
    assert_eq!(tws0(b"", 0), 0);
    assert_eq!(tws0(b"   ", 0), 3);
    assert_eq!(tws0(b"ab", 5), 5);
    assert_eq!(tws0(b" /**/ x", 0), 1);
}

#[test]
fn tws1_needs_something_to_skip() {
    assert_eq!(tws1(b"foo", 0), None);
    assert_eq!(tws1(b" foo", 0), Some(1));
    assert_eq!(tws1(b"#c\n  foo", 0), Some(5));
    assert_eq!(tws1(b"", 0), None);
    assert_eq!(tws1(b" ", 2), None);
}

#[test]
fn token_is_matched_byte_for_byte() {
    assert_eq!(token(b"PREFIX x", 0, b"PREFIX").unwrap(), 6);
    assert_eq!(token(b"a{", 1, b"{").unwrap(), 2);
    assert_eq!(token(b"abc", 1, b"").unwrap(), 1);
    assert!(is_expected(&token(b"prefix x", 0, b"PREFIX").unwrap_err(), b"PREFIX", 0, 0));
    assert!(is_expected(&token(b"PRE", 0, b"PREFIX").unwrap_err(), b"PREFIX", 0, 0));
    assert!(is_expected(&token(b" {", 0, b"{").unwrap_err(), b"{", 0, 0));
    assert!(is_expected(&token(b"{", 4, b"{").unwrap_err(), b"{", 4, 4));
}

#[test]
fn token_tws_skips_around_the_token() {
    assert_eq!(token_tws(b"  { }", 0, b"{").unwrap(), 4);
    assert_eq!(token_tws(b"{", 0, b"{").unwrap(), 1);
    assert_eq!(token_tws(b" # c\n;  # d", 0, b";").unwrap(), 11);
    assert!(is_expected(&token_tws(b"  } {", 0, b"{").unwrap_err(), b"{", 0, 2));
    assert!(is_expected(&token_tws(b"   ", 1, b"{").unwrap_err(), b"{", 1, 3));
}

#[test]
fn tag_no_case_tws_ignores_the_case_of_letters() {
    assert_eq!(tag_no_case_tws(b" prefix ex:", 0, b"PREFIX").unwrap(), 8);
    assert_eq!(tag_no_case_tws(b"PrEfIx", 0, b"prefix").unwrap(), 6);
    assert_eq!(tag_no_case_tws(b"a_b", 0, b"A_B").unwrap(), 3);
    assert!(is_expected(&tag_no_case_tws(b" prefiy", 0, b"PREFIX").unwrap_err(), b"PREFIX", 0, 1));
    // Only letters are folded: '@' and '`' differ by the same bit.
    assert!(tag_no_case_tws(b"`", 0, b"@").is_err());
    assert!(tag_no_case_tws(b"[", 0, b"{").is_err());
}

#[test]
fn map_error_puts_the_new_error_above_the_old_one() {
    let ok: Result<u8, Failure> = Ok(7);
    assert!(matches!(map_error(ok, ErrorKind::Tag, 3), Ok(7)));
    let incomplete: Result<u8, Failure> = Err(Failure::Incomplete);
    assert!(matches!(map_error(incomplete, ErrorKind::Tag, 3), Err(Failure::Incomplete)));
    let below = ParseError {
        kind: ErrorKind::ExpectedToken(b"{".to_vec()),
        at: 5,
        context: vec![Located { kind: ErrorKind::Tag, at: 6 }],
    };
    let error: Result<u8, Failure> = Err(Failure::Error(below));
    match map_error(error, ErrorKind::ExpectedToken(b"shape".to_vec()), 2) {
        Err(Failure::Error(e)) => {
            assert!(matches!(&e.kind, ErrorKind::ExpectedToken(t) if t.as_slice() == b"shape"));
            assert_eq!(e.at, 2);
            assert_eq!(e.context.len(), 2);
            assert!(matches!(&e.context[0].kind, ErrorKind::ExpectedToken(t) if t.as_slice() == b"{"));
            assert_eq!(e.context[0].at, 5);
            assert!(matches!(e.context[1], Located { kind: ErrorKind::Tag, at: 6 }));
        }
        other => panic!("unexpected {:?}", other),
    }
    let failure: Result<u8, Failure> =
        Err(Failure::Failure(ParseError { kind: ErrorKind::Tag, at: 1, context: Vec::new() }));
    match map_error(failure, ErrorKind::Tag, 0) {
        Err(Failure::Failure(e)) => {
            assert_eq!(e.at, 0);
            assert_eq!(e.context.len(), 1);
            assert_eq!(e.context[0].at, 1);
        }
        other => panic!("unexpected {:?}", other),
    }
}

#[test]
fn many1_sep_collects_separated_items() {
    let input: &[u8] = b" 1 , 2 /* c */,3 ; 4";
    let r = many1_sep(input, |at| digit(input, at), |at| comma(input, at), |v: Vec<u8>| v, 0);
    let (end, items) = r.unwrap();
    assert_eq!(items, vec![1, 2, 3]);
    assert_eq!(input[end], b';');
    let single: &[u8] = b"7";
    let (end, sum) =
        many1_sep(single, |at| digit(single, at), |at| comma(single, at), |v: Vec<u8>| v.len(), 0)
            .unwrap();
    assert_eq!((end, sum), (1, 1));
}

#[test]
fn many1_sep_consumes_a_separator_that_no_item_follows() {
    let input: &[u8] = b"1,2, x";
    let (end, items) =
        many1_sep(input, |at| digit(input, at), |at| comma(input, at), |v: Vec<u8>| v, 0).unwrap();
    assert_eq!(items, vec![1, 2]);
    assert_eq!(end, 5);
}

#[test]
fn many1_sep_fails_with_the_failure_of_the_first_item() {
    let input: &[u8] = b"  x,1";
    let r = many1_sep(input, |at| digit(input, at), |at| comma(input, at), |v: Vec<u8>| v, 0);
    assert!(matches!(
        r,
        Err(Failure::Error(ParseError { kind: ErrorKind::Tag, at: 2, .. }))
    ));
}

#[test]
fn many1_sep_stops_at_an_item_that_consumes_nothing() {
    let input: &[u8] = b"1";
    let r = many1_sep(
        input,
        |at| Ok::<(usize, u8), Failure>((at, 0)),
        |at| Ok::<usize, Failure>(at),
        |v: Vec<u8>| v.len(),
        0,
    );
    assert_eq!(r.unwrap(), (0, 1));
}

#[test]
fn many1_sep_reads_three_items_with_whitespace_around_the_separators() {
    let input: &[u8] = b"a, a ,a";
    let item = |at: usize| match input.get(at) {
        Some(b'a') => Ok((at + 1, b'a')),
        _ => Err(Failure::Incomplete),
    };
    let (end, items) =
        many1_sep(input, item, |at| comma(input, at), |v: Vec<u8>| v, 0).unwrap();
    assert_eq!(items, vec![b'a', b'a', b'a']);
    assert_eq!(end, 7);
}
