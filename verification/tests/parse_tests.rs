use chili::parse::{Block, Parser};
use chili::parse_spec::{Expected, ParseProtoKind, SyntaxError, Token, TokenKind, TypeExpr, EMPTY_NAME};
use chili::span::Span;

fn parser(kinds: Vec<TokenKind>) -> Parser {
    let mut tokens: Vec<Token> = kinds
        .into_iter()
        .enumerate()
        .map(|(i, kind)| Token { kind, span: Span { file_id: 0, start: i, end: i + 1 } })
        .collect();
    let n = tokens.len();
    tokens.push(Token { kind: TokenKind::Eof, span: Span { file_id: 0, start: n, end: n } });
    Parser { tokens, current: 0, decl_name_frames: vec![] }
}

fn at(i: usize) -> Span {
    Span { file_id: 0, start: i, end: i + 1 }
}


#[test]
fn no_parentheses_means_no_parameters() {
    let mut p = parser(vec![TokenKind::OpenCurly]);
    let (params, variadic) = p.parse_fn_params(ParseProtoKind::Value).unwrap();
    assert!(params.is_empty());
    assert!(!variadic);
    assert_eq!(p.current, 0);
}

#[test]
fn value_parameters() {
    // (a: i32, mut b, _: *u8,)
    let mut p = parser(vec![
        TokenKind::OpenParen, TokenKind::Id(1), TokenKind::Colon, TokenKind::Id(10), TokenKind::Comma, TokenKind::Mut, TokenKind::Id(2), TokenKind::Comma, TokenKind::Placeholder, TokenKind::Colon, TokenKind::Star, TokenKind::Id(11), TokenKind::Comma, TokenKind::CloseParen,
    ]);
    let (params, variadic) = p.parse_fn_params(ParseProtoKind::Value).unwrap();
    assert!(!variadic);
    assert_eq!(p.current, 14);
    assert_eq!(params.len(), 3);
    assert_eq!(params[0].pattern.symbol, 1);
    assert_eq!(params[0].pattern.span, at(1));
    assert!(matches!(params[0].ty, Some(TypeExpr::Name(10, _))));
    assert_eq!(params[1].pattern.symbol, 2);
    assert!(params[1].pattern.is_mutable);
    assert!(params[1].ty.is_none());
    assert!(params[2].pattern.ignore);
    match &params[2].ty {
        Some(TypeExpr::Pointer(inner)) => assert!(matches!(**inner, TypeExpr::Name(11, _))),
        _ => panic!("expected a pointer type"),
    }
}

#[test]
fn variadic_parameters() {
    // (a: i32, ..)
    let mut p = parser(vec![TokenKind::OpenParen, TokenKind::Id(1), TokenKind::Colon, TokenKind::Id(10), TokenKind::Comma, TokenKind::DotDot, TokenKind::CloseParen, TokenKind::Id(5)]);
    let (params, variadic) = p.parse_fn_params(ParseProtoKind::Value).unwrap();
    assert!(variadic);
    assert_eq!(params.len(), 1);
    assert_eq!(p.current, 7);
    // (..)
    let mut p = parser(vec![TokenKind::OpenParen, TokenKind::DotDot, TokenKind::CloseParen]);
    let (params, variadic) = p.parse_fn_params(ParseProtoKind::Type).unwrap();
    assert!(variadic && params.is_empty());
}

#[test]
fn type_parameters_may_be_unnamed() {
    // (i32, a: u8, _: u16)
    let mut p = parser(vec![
        TokenKind::OpenParen, TokenKind::Id(10), TokenKind::Comma, TokenKind::Id(1), TokenKind::Colon, TokenKind::Id(11), TokenKind::Comma, TokenKind::Placeholder, TokenKind::Colon, TokenKind::Id(12), TokenKind::CloseParen,
    ]);
    let (params, _) = p.parse_fn_params(ParseProtoKind::Type).unwrap();
    assert_eq!(params.len(), 3);
    assert!(params[0].pattern.ignore);
    assert_eq!(params[0].pattern.symbol, EMPTY_NAME);
    assert!(matches!(params[0].ty, Some(TypeExpr::Name(10, _))));
    assert_eq!(params[1].pattern.symbol, 1);
    assert!(!params[1].pattern.ignore);
    assert!(matches!(params[1].ty, Some(TypeExpr::Name(11, _))));
    assert!(params[2].pattern.ignore);
    assert!(matches!(params[2].ty, Some(TypeExpr::Name(12, _))));
}

#[test]
fn named_parameters_parse_alike_in_both_kinds() {
    let tokens = vec![TokenKind::OpenParen, TokenKind::Id(1), TokenKind::Colon, TokenKind::Id(10), TokenKind::Comma, TokenKind::Id(2), TokenKind::Colon, TokenKind::Id(11), TokenKind::CloseParen];
    let (value, _) = parser(tokens.clone()).parse_fn_params(ParseProtoKind::Value).unwrap();
    let (ty, _) = parser(tokens).parse_fn_params(ParseProtoKind::Type).unwrap();
    assert_eq!(value.len(), 2);
    assert_eq!(ty.len(), 2);
    for k in 0..2 {
        assert_eq!(value[k].pattern, ty[k].pattern);
    }
}

#[test]
fn parameter_errors() {
    // (a b)
    let mut p = parser(vec![TokenKind::OpenParen, TokenKind::Id(1), TokenKind::Id(2), TokenKind::CloseParen]);
    assert_eq!(
        p.parse_fn_params(ParseProtoKind::Value).unwrap_err(),
        SyntaxError { span: at(2), expected: Expected::CommaOrCloseParen }
    );
    // (.. a)
    let mut p = parser(vec![TokenKind::OpenParen, TokenKind::DotDot, TokenKind::Id(1)]);
    assert_eq!(
        p.parse_fn_params(ParseProtoKind::Value).unwrap_err(),
        SyntaxError { span: at(2), expected: Expected::CloseParen }
    );
    // (:)
    let mut p = parser(vec![TokenKind::OpenParen, TokenKind::Colon, TokenKind::CloseParen]);
    assert_eq!(p.parse_fn_params(ParseProtoKind::Value).unwrap_err(), SyntaxError { span: at(1), expected: Expected::Pattern });
    // (a: ,)
    let mut p = parser(vec![TokenKind::OpenParen, TokenKind::Id(1), TokenKind::Colon, TokenKind::Comma]);
    assert_eq!(p.parse_fn_params(ParseProtoKind::Value).unwrap_err(), SyntaxError { span: at(3), expected: Expected::Type });
    // (mut a) in a type prototype needs a type
    let mut p = parser(vec![TokenKind::OpenParen, TokenKind::Mut, TokenKind::Id(1), TokenKind::CloseParen]);
    assert_eq!(p.parse_fn_params(ParseProtoKind::Type).unwrap_err(), SyntaxError { span: at(3), expected: Expected::Colon });
}

#[test]
fn unclosed_list_ends_at_end_of_input() {
    let mut p = parser(vec![TokenKind::OpenParen, TokenKind::Id(1), TokenKind::Comma]);
    let (params, variadic) = p.parse_fn_params(ParseProtoKind::Value).unwrap();
    assert_eq!(params.len(), 1);
    assert!(!variadic);
    assert_eq!(p.current, 3);
}

#[test]
fn prototypes_with_and_without_return_type() {
    let mut p = parser(vec![TokenKind::OpenParen, TokenKind::Id(1), TokenKind::CloseParen, TokenKind::RightArrow, TokenKind::Star, TokenKind::Id(10), TokenKind::OpenCurly]);
    let proto = p.parse_fn_proto(42, ParseProtoKind::Value).unwrap();
    assert_eq!(proto.name, 42);
    assert!(proto.lib_name.is_none());
    assert!(proto.ty.is_none());
    assert_eq!(proto.params.len(), 1);
    assert!(matches!(proto.ret.as_deref(), Some(TypeExpr::Pointer(_))));
    assert_eq!(p.current, 6);
    let mut p = parser(vec![TokenKind::OpenParen, TokenKind::CloseParen, TokenKind::OpenCurly]);
    let proto = p.parse_fn_proto(42, ParseProtoKind::Type).unwrap();
    assert!(proto.ret.is_none());
    let mut p = parser(vec![TokenKind::RightArrow, TokenKind::OpenParen]);
    assert_eq!(p.parse_fn_proto(1, ParseProtoKind::Value).unwrap_err(), SyntaxError { span: at(1), expected: Expected::Type });
}

#[test]
fn functions_with_bodies() {
    // fn (a) -> i32 { { x } y }
    let mut p = parser(vec![
        TokenKind::Other(1), TokenKind::OpenParen, TokenKind::Id(1), TokenKind::CloseParen, TokenKind::RightArrow, TokenKind::Id(10), TokenKind::OpenCurly, TokenKind::OpenCurly, TokenKind::Id(3), TokenKind::CloseCurly, TokenKind::Id(4), TokenKind::CloseCurly,
        TokenKind::Id(9),
    ]);
    p.current = 1;
    p.decl_name_frames = vec![7, 8];
    assert_eq!(p.get_decl_name(), 8);
    let f = p.parse_fn().unwrap();
    assert_eq!(f.proto.name, 8);
    assert!(!f.is_startup);
    assert_eq!(f.body, Block { start: 7, end: 11 });
    assert_eq!(f.span, Span { file_id: 0, start: 0, end: 12 });
    assert_eq!(p.current, 12);
}

#[test]
fn function_body_errors() {
    let mut p = parser(vec![TokenKind::Other(1), TokenKind::OpenParen, TokenKind::CloseParen, TokenKind::Id(3)]);
    p.current = 1;
    assert_eq!(p.parse_fn().unwrap_err(), SyntaxError { span: at(3), expected: Expected::OpenCurly });
    let mut p = parser(vec![TokenKind::Other(1), TokenKind::OpenCurly, TokenKind::OpenCurly, TokenKind::CloseCurly]);
    p.current = 1;
    assert_eq!(p.parse_fn().unwrap_err(), SyntaxError { span: Span { file_id: 0, start: 4, end: 4 }, expected: Expected::CloseCurly });
    let p = parser(vec![]);
    assert_eq!(p.get_decl_name(), EMPTY_NAME);
}
