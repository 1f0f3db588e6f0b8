use nameres::ast::{Span, PLACEHOLDER_ID};
use nameres::parse::{
    ident, is_keyword, join, keyword, many, opt, token, FinalSep, IdentParser, Keyword,
    ParseError, ParseErrorKind, Scanner, Token, TokenKind,
};

fn sp(lo: u32, hi: u32) -> Span {
    Span { lo, hi }
}

fn tok(kind: TokenKind, lo: u32, text: &str) -> Token {
    Token { kind, span: sp(lo, lo + text.len() as u32), text: text.to_string() }
}

/// A scanner over the given tokens, with the end-of-input marker appended.
fn scan(mut tokens: Vec<Token>) -> Scanner {
    let end = tokens.last().map(|t| t.span.hi).unwrap_or(0);
    tokens.push(tok(TokenKind::Eof, end, ""));
    Scanner::new(tokens)
}

#[test]
fn token_consumes_matching_kind() {
    let mut s = scan(vec![tok(TokenKind::Comma, 0, ","), tok(TokenKind::Dot, 1, ".")]);
    assert_eq!(token(&mut s, TokenKind::Comma), Ok(()));
    assert_eq!(s.pos, 1);
    assert_eq!(token(&mut s, TokenKind::Dot), Ok(()));
    assert_eq!(s.pos, 2);
}

#[test]
fn token_fails_without_consuming() {
    let mut s = scan(vec![tok(TokenKind::Comma, 0, ",")]);
    assert_eq!(
        token(&mut s, TokenKind::Dot),
        Err(ParseError { kind: ParseErrorKind::Token(TokenKind::Dot), span: sp(0, 1) })
    );
    assert_eq!(s.pos, 0);
}

#[test]
fn keyword_matches_exact_text() {
    let mut s = scan(vec![tok(TokenKind::Ident, 0, "open"), tok(TokenKind::Ident, 5, "opened")]);
    assert_eq!(keyword(&mut s, Keyword::Open), Ok(()));
    assert_eq!(s.pos, 1);
    assert_eq!(
        keyword(&mut s, Keyword::Open),
        Err(ParseError { kind: ParseErrorKind::Keyword(Keyword::Open), span: sp(5, 11) })
    );
    assert_eq!(s.pos, 1);
}

#[test]
fn keyword_spellings() {
    assert_eq!(Keyword::Namespace.as_str(), "namespace");
    assert_eq!(Keyword::Underscore.as_str(), "_");
    assert!(is_keyword(&"operation".to_string()));
    assert!(!is_keyword(&"operations".to_string()));
}

#[test]
fn ident_takes_name_and_span() {
    let mut s = scan(vec![tok(TokenKind::Ident, 3, "Foo")]);
    let id = ident(&mut s).unwrap();
    assert_eq!(id.name, "Foo");
    assert_eq!(id.span, sp(3, 6));
    assert_eq!(id.id, PLACEHOLDER_ID);
    assert_eq!(s.pos, 1);
}

#[test]
fn ident_rejects_keywords_and_other_tokens() {
    let mut s = scan(vec![tok(TokenKind::Ident, 0, "let")]);
    assert_eq!(
        ident(&mut s),
        Err(ParseError { kind: ParseErrorKind::Rule, span: sp(0, 3) })
    );
    assert_eq!(s.pos, 0);
    let mut s = scan(vec![tok(TokenKind::Comma, 0, ",")]);
    assert_eq!(
        ident(&mut s),
        Err(ParseError { kind: ParseErrorKind::Rule, span: sp(0, 1) })
    );
}

#[test]
fn opt_wraps_success_and_absorbs_clean_failure() {
    let mut s = scan(vec![tok(TokenKind::Ident, 0, "a"), tok(TokenKind::Comma, 1, ",")]);
    let first = opt(&mut s, &IdentParser).unwrap();
    assert_eq!(first.map(|i| i.name), Some("a".to_string()));
    let second = opt(&mut s, &IdentParser).unwrap();
    assert!(second.is_none());
    assert_eq!(s.pos, 1);
}

#[test]
fn many_collects_until_clean_failure() {
    let mut s = scan(vec![
        tok(TokenKind::Ident, 0, "a"),
        tok(TokenKind::Ident, 2, "b"),
        tok(TokenKind::Ident, 4, "c"),
        tok(TokenKind::Dot, 5, "."),
    ]);
    let names: Vec<String> = many(&mut s, &IdentParser)
        .unwrap()
        .into_iter()
        .map(|i| i.name)
        .collect();
    assert_eq!(names, ["a", "b", "c"]);
    assert_eq!(s.pos, 3);
}

#[test]
fn many_accepts_nothing() {
    let mut s = scan(vec![tok(TokenKind::Dot, 0, ".")]);
    let got = many(&mut s, &IdentParser).unwrap();
    assert!(got.is_empty());
    assert_eq!(s.pos, 0);
}

#[test]
fn seq_without_trailing_comma() {
    let mut s = scan(vec![
        tok(TokenKind::Ident, 0, "a"),
        tok(TokenKind::Comma, 1, ","),
        tok(TokenKind::Ident, 2, "b"),
    ]);
    let (items, sep) = nameres::parse::seq(&mut s, &IdentParser).unwrap();
    let names: Vec<String> = items.into_iter().map(|i| i.name).collect();
    assert_eq!(names, ["a", "b"]);
    assert_eq!(sep, FinalSep::Missing);
}

#[test]
fn seq_with_trailing_comma() {
    let mut s = scan(vec![
        tok(TokenKind::Ident, 0, "a"),
        tok(TokenKind::Comma, 1, ","),
        tok(TokenKind::Ident, 2, "b"),
        tok(TokenKind::Comma, 3, ","),
        tok(TokenKind::CloseParen, 4, ")"),
    ]);
    let (items, sep) = nameres::parse::seq(&mut s, &IdentParser).unwrap();
    let names: Vec<String> = items.into_iter().map(|i| i.name).collect();
    assert_eq!(names, ["a", "b"]);
    assert_eq!(sep, FinalSep::Present);
    assert_eq!(s.pos, 4);
}

#[test]
fn seq_of_nothing_is_empty_without_separator() {
    let mut s = scan(vec![tok(TokenKind::CloseParen, 0, ")")]);
    let (items, sep) = nameres::parse::seq(&mut s, &IdentParser).unwrap();
    assert!(items.is_empty());
    assert_eq!(sep, FinalSep::Missing);
}

#[test]
fn reify_one_item_without_final_separator_is_parenthesized() {
    let got = FinalSep::Missing.reify(
        vec![5],
        |x: i32| format!("paren({x})"),
        |xs: Vec<i32>| format!("seq(len {})", xs.len()),
    );
    assert_eq!(got, "paren(5)");
}

#[test]
fn reify_trailing_separator_or_many_items_is_a_sequence() {
    let got = FinalSep::Present.reify(
        vec![5],
        |x: i32| format!("paren({x})"),
        |xs: Vec<i32>| format!("seq(len {})", xs.len()),
    );
    assert_eq!(got, "seq(len 1)");
    let got = FinalSep::Missing.reify(
        vec![5, 6],
        |x: i32| format!("paren({x})"),
        |xs: Vec<i32>| format!("seq(len {})", xs.len()),
    );
    assert_eq!(got, "seq(len 2)");
}

#[test]
fn join_puts_separator_between_parts() {
    let parts = vec![
        "Microsoft".to_string(),
        "Quantum".to_string(),
        "Math".to_string(),
    ];
    assert_eq!(join(&parts, "."), "Microsoft.Quantum.Math");
    assert_eq!(join(&vec!["one".to_string()], "."), "one");
    assert_eq!(join(&Vec::new(), "."), "");
}

#[test]
fn path_with_one_part_is_unqualified() {
    let mut s = scan(vec![tok(TokenKind::Ident, 0, "Foo"), tok(TokenKind::Comma, 3, ",")]);
    let p = nameres::parse::path(&mut s).unwrap();
    assert!(p.namespace.is_none());
    assert_eq!(p.name.name, "Foo");
    assert_eq!(p.span, sp(0, 3));
    assert_eq!(s.pos, 1);
}

#[test]
fn path_joins_leading_parts_into_the_qualifier() {
    let mut s = scan(vec![
        tok(TokenKind::Ident, 0, "Microsoft"),
        tok(TokenKind::Dot, 9, "."),
        tok(TokenKind::Ident, 10, "Quantum"),
        tok(TokenKind::Dot, 17, "."),
        tok(TokenKind::Ident, 18, "Math"),
        tok(TokenKind::Dot, 22, "."),
        tok(TokenKind::Ident, 23, "Sqrt"),
    ]);
    let p = nameres::parse::path(&mut s).unwrap();
    let ns = p.namespace.unwrap();
    assert_eq!(ns.name, "Microsoft.Quantum.Math");
    assert_eq!(ns.span, sp(0, 22));
    assert_eq!(p.name.name, "Sqrt");
    assert_eq!(p.name.span, sp(23, 27));
    assert_eq!(p.span, sp(0, 27));
    assert_eq!(s.pos, 7);
}

#[test]
fn path_requires_an_identifier_after_a_dot() {
    let mut s = scan(vec![
        tok(TokenKind::Ident, 0, "a"),
        tok(TokenKind::Dot, 1, "."),
        tok(TokenKind::Comma, 2, ","),
    ]);
    let err = nameres::parse::path(&mut s).unwrap_err();
    assert_eq!(err, ParseError { kind: ParseErrorKind::Rule, span: sp(2, 3) });
    // the dot was consumed before the failure
    assert_eq!(s.pos, 2);
}

#[test]
fn dot_ident_flattens_the_path() {
    let mut s = scan(vec![
        tok(TokenKind::Ident, 0, "a"),
        tok(TokenKind::Dot, 1, "."),
        tok(TokenKind::Ident, 2, "b"),
        tok(TokenKind::Dot, 3, "."),
        tok(TokenKind::Ident, 4, "c"),
    ]);
    let id = nameres::parse::dot_ident(&mut s).unwrap();
    assert_eq!(id.name, "a.b.c");
    assert_eq!(id.span, sp(0, 5));
    let mut s = scan(vec![tok(TokenKind::Ident, 0, "solo")]);
    let id = nameres::parse::dot_ident(&mut s).unwrap();
    assert_eq!(id.name, "solo");
}
