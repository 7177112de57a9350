use vstd::prelude::*;
use crate::span::Span;

verus! {

/// The kind of a token; names are interned.
#[derive(Clone, Copy, Debug, PartialEq, Eq, Structural)]
pub enum TokenKind {
    OpenParen,
    CloseParen,
    OpenCurly,
    CloseCurly,
    Comma,
    Colon,
    DotDot,
    RightArrow,
    Star,
    Mut,
    Placeholder,
    Id(u64),
    Other(u64),
    Eof,
}

#[derive(Clone, Copy, Debug, PartialEq, Eq, Structural)]
pub struct Token {
    pub kind: TokenKind,
    pub span: Span,
}

/// The interned empty name, which an unnamed parameter binds.
pub const EMPTY_NAME: u64 = 0;

/// What the parser expected where it stopped.
#[derive(Clone, Copy, Debug, PartialEq, Eq, Structural)]
pub enum Expected {
    /// `)`
    CloseParen,
    /// `:`
    Colon,
    /// `, or )`
    CommaOrCloseParen,
    /// `{`
    OpenCurly,
    /// `}`
    CloseCurly,
    /// a name or `_`
    Pattern,
    /// a type
    Type,
}

/// A syntax error: what was expected, and the span of the token found instead.
#[derive(Clone, Copy, Debug, PartialEq, Eq, Structural)]
pub struct SyntaxError {
    pub span: Span,
    pub expected: Expected,
}

/// A name bound by a parameter; `ignore` marks `_` and unnamed parameters.
#[derive(Clone, Copy, Debug, PartialEq, Eq, Structural)]
pub struct SymbolPattern {
    pub symbol: u64,
    pub span: Span,
    pub is_mutable: bool,
    pub ignore: bool,
}

/// A type as written: a name, or a pointer `*T`.
#[derive(Debug)]
pub enum TypeExpr {
    Name(u64, Span),
    Pointer(Box<TypeExpr>),
}

#[derive(Debug)]
pub struct FnParam {
    pub pattern: SymbolPattern,
    pub ty: Option<TypeExpr>,
}

/// Whether a prototype belongs to a function value, whose parameters are
/// named, or to a function type, whose parameter names are optional.
#[derive(Clone, Copy, Debug, PartialEq, Eq, Structural)]
pub enum ParseProtoKind {
    Value,
    Type,
}

/// A token sequence that the parser can walk: it ends in its only `Eof`.
pub open spec fn tokens_wf(toks: Seq<Token>) -> bool {
    &&& toks.len() > 0
    &&& toks.last().kind == TokenKind::Eof
    &&& forall|i: int| 0 <= i < toks.len() - 1 ==> (#[trigger] toks[i]).kind != TokenKind::Eof
}

/// The position after the token at `pos`; the parser never moves past `Eof`.
pub open spec fn next_pos(toks: Seq<Token>, pos: int) -> int {
    if toks[pos].kind == TokenKind::Eof { pos } else { pos + 1 }
}

pub open spec fn syntax_error(toks: Seq<Token>, pos: int, expected: Expected) -> SyntaxError {
    SyntaxError { span: toks[pos].span, expected }
}

/// A name or `_`, possibly after `mut`.
pub open spec fn spec_symbol_pattern(toks: Seq<Token>, pos: int) -> Result<(SymbolPattern, int), SyntaxError> {
    let is_mutable = toks[pos].kind == TokenKind::Mut;
    let p = if is_mutable { next_pos(toks, pos) } else { pos };
    match toks[p].kind {
        TokenKind::Id(s) => Ok((SymbolPattern { symbol: s, span: toks[p].span, is_mutable, ignore: false }, p + 1)),
        TokenKind::Placeholder => Ok((SymbolPattern { symbol: EMPTY_NAME, span: toks[p].span, is_mutable, ignore: true }, p + 1)),
        _ => Err(syntax_error(toks, p, Expected::Pattern)),
    }
}

/// A type: a name, or `*` and a type.
pub open spec fn spec_ty(toks: Seq<Token>, pos: int) -> Result<(TypeExpr, int), SyntaxError>
    decreases toks.len() - pos,
{
    if pos < 0 || pos >= toks.len() {
        Err(syntax_error(toks, pos, Expected::Type))
    } else {
        match toks[pos].kind {
            TokenKind::Id(s) => Ok((TypeExpr::Name(s, toks[pos].span), pos + 1)),
            TokenKind::Star => match spec_ty(toks, pos + 1) {
                Ok((t, p)) => Ok((TypeExpr::Pointer(Box::new(t)), p)),
                Err(e) => Err(e),
            },
            _ => Err(syntax_error(toks, pos, Expected::Type)),
        }
    }
}

/// A pattern, `:` and a type.
pub open spec fn spec_typed_param(toks: Seq<Token>, pos: int) -> Result<(FnParam, int), SyntaxError> {
    match spec_symbol_pattern(toks, pos) {
        Err(e) => Err(e),
        Ok((pattern, p1)) => if toks[p1].kind == TokenKind::Colon {
            match spec_ty(toks, p1 + 1) {
                Ok((t, p2)) => Ok((FnParam { pattern, ty: Some(t) }, p2)),
                Err(e) => Err(e),
            }
        } else {
            Err(syntax_error(toks, p1, Expected::Colon))
        },
    }
}

/// The pattern of a parameter that has no name.
pub open spec fn unnamed_pattern() -> SymbolPattern {
    SymbolPattern { symbol: EMPTY_NAME, span: Span { file_id: 0, start: 0, end: 0 }, is_mutable: false, ignore: true }
}

/// One parameter. A value's parameter is a pattern with an optional type;
/// a type's parameter is `name: type`, or just a type.
pub open spec fn spec_param(toks: Seq<Token>, pos: int, kind: ParseProtoKind) -> Result<(FnParam, int), SyntaxError> {
    match kind {
        ParseProtoKind::Value => match spec_symbol_pattern(toks, pos) {
            Err(e) => Err(e),
            Ok((pattern, p1)) => if toks[p1].kind == TokenKind::Colon {
                match spec_ty(toks, p1 + 1) {
                    Ok((t, p2)) => Ok((FnParam { pattern, ty: Some(t) }, p2)),
                    Err(e) => Err(e),
                }
            } else {
                Ok((FnParam { pattern, ty: None }, p1))
            },
        },
        ParseProtoKind::Type => if (toks[pos].kind is Id || toks[pos].kind == TokenKind::Placeholder)
            && toks[pos + 1].kind != TokenKind::Colon {
            match spec_ty(toks, pos) {
                Ok((t, p)) => Ok((FnParam { pattern: unnamed_pattern(), ty: Some(t) }, p)),
                Err(e) => Err(e),
            }
        } else {
            spec_typed_param(toks, pos)
        },
    }
}

/// The rest of a parameter list from `pos`, after the parameters `acc`:
/// parameters separated by commas, an optional trailing comma or `..`, and
/// `)`. A list that meets the end of input ends there.
pub open spec fn spec_params_list(toks: Seq<Token>, pos: int, kind: ParseProtoKind, acc: Seq<FnParam>)
    -> Result<(Seq<FnParam>, bool, int), SyntaxError>
    decreases toks.len() - pos,
{
    if pos < 0 || pos >= toks.len() {
        Ok((acc, false, pos))
    } else if toks[pos].kind == TokenKind::CloseParen {
        Ok((acc, false, pos + 1))
    } else if toks[pos].kind == TokenKind::Eof {
        Ok((acc, false, pos))
    } else if toks[pos].kind == TokenKind::DotDot {
        if toks[pos + 1].kind == TokenKind::CloseParen {
            Ok((acc, true, pos + 2))
        } else {
            Err(syntax_error(toks, pos + 1, Expected::CloseParen))
        }
    } else {
        match spec_param(toks, pos, kind) {
            Err(e) => Err(e),
            Ok((param, p1)) => {
                let acc2 = acc.push(param);
                if 0 <= p1 < toks.len() && toks[p1].kind == TokenKind::Comma {
                    if pos < p1 {
                        spec_params_list(toks, p1 + 1, kind, acc2)
                    } else {
                        Err(syntax_error(toks, p1, Expected::CommaOrCloseParen))
                    }
                } else if 0 <= p1 < toks.len() && toks[p1].kind == TokenKind::CloseParen {
                    Ok((acc2, false, p1 + 1))
                } else {
                    Err(syntax_error(toks, p1, Expected::CommaOrCloseParen))
                }
            },
        }
    }
}

/// An optional parameter list in parentheses, and whether it ends in `..`.
pub open spec fn spec_fn_params(toks: Seq<Token>, pos: int, kind: ParseProtoKind)
    -> Result<(Seq<FnParam>, bool, int), SyntaxError> {
    if toks[pos].kind == TokenKind::OpenParen {
        spec_params_list(toks, pos + 1, kind, seq![])
    } else {
        Ok((seq![], false, pos))
    }
}


/// A prototype: its parameters, whether it is variadic, and its return
/// type after `->`, when it has one.
pub open spec fn spec_fn_proto(toks: Seq<Token>, pos: int, kind: ParseProtoKind)
    -> Result<((Seq<FnParam>, bool, Option<Box<TypeExpr>>), int), SyntaxError> {
    match spec_fn_params(toks, pos, kind) {
        Err(e) => Err(e),
        Ok((params, variadic, p1)) => if 0 <= p1 < toks.len() && toks[p1].kind == TokenKind::RightArrow {
            match spec_ty(toks, p1 + 1) {
                Ok((t, p2)) => Ok(((params, variadic, Some(Box::new(t))), p2)),
                Err(e) => Err(e),
            }
        } else {
            Ok(((params, variadic, None), p1))
        },
    }
}

/// The end of a block's body that starts at `pos`, inside `depth` more
/// levels of braces: the position after its closing `}`. The body's tokens
/// are not parsed further; braces in it must balance.
pub open spec fn spec_block_end(toks: Seq<Token>, pos: int, depth: nat) -> Result<int, SyntaxError>
    decreases toks.len() - pos,
{
    if pos < 0 || pos >= toks.len() || toks[pos].kind == TokenKind::Eof {
        Err(syntax_error(toks, pos, Expected::CloseCurly))
    } else if toks[pos].kind == TokenKind::CloseCurly {
        if depth == 0 {
            Ok(pos + 1)
        } else {
            spec_block_end(toks, pos + 1, (depth - 1) as nat)
        }
    } else if toks[pos].kind == TokenKind::OpenCurly {
        spec_block_end(toks, pos + 1, depth + 1)
    } else {
        spec_block_end(toks, pos + 1, depth)
    }
}


/// The parameters that `name: type` pairs stand for; each pair holds the
/// parameter's name and its span, and the type's name and its span.
pub open spec fn typed_params(pairs: Seq<(u64, Span, u64, Span)>) -> Seq<FnParam> {
    Seq::new(pairs.len(), |k: int| FnParam {
        pattern: SymbolPattern { symbol: pairs[k].0, span: pairs[k].1, is_mutable: false, ignore: false },
        ty: Some(TypeExpr::Name(pairs[k].2, pairs[k].3)),
    })
}

/// The tokens from `pos` spell `pairs` as `name: type` parameters,
/// separated by `,` and closed by `)`.
pub open spec fn spells_typed_params(toks: Seq<Token>, pos: int, pairs: Seq<(u64, Span, u64, Span)>) -> bool {
    &&& 0 <= pos
    &&& pos + 4 * pairs.len() < toks.len()
    &&& forall|k: int| 0 <= k < pairs.len() ==> {
        &&& toks[pos + 4 * k] == Token { kind: TokenKind::Id((#[trigger] pairs[k]).0), span: pairs[k].1 }
        &&& toks[pos + 4 * k + 1].kind == TokenKind::Colon
        &&& toks[pos + 4 * k + 2] == Token { kind: TokenKind::Id(pairs[k].2), span: pairs[k].3 }
        &&& toks[pos + 4 * k + 3].kind == if k + 1 < pairs.len() { TokenKind::Comma } else { TokenKind::CloseParen }
    }
}

proof fn lemma_typed_params_from(
    toks: Seq<Token>,
    pos: int,
    pairs: Seq<(u64, Span, u64, Span)>,
    kind: ParseProtoKind,
    acc: Seq<FnParam>,
    j: int,
)
    requires
        tokens_wf(toks),
        pairs.len() > 0,
        spells_typed_params(toks, pos, pairs),
        0 <= j < pairs.len(),
    ensures
        spec_params_list(toks, pos + 4 * j, kind, acc + typed_params(pairs).take(j))
            == Ok::<(Seq<FnParam>, bool, int), SyntaxError>((acc + typed_params(pairs), false, pos + 4 * pairs.len())),
    decreases pairs.len() - j,
{
    let q = pos + 4 * j;
    let pair = pairs[j];
    assert(toks[q] == Token { kind: TokenKind::Id(pair.0), span: pair.1 });
    assert(toks[q + 1].kind == TokenKind::Colon);
    assert(toks[q + 2] == Token { kind: TokenKind::Id(pair.2), span: pair.3 });
    let param = typed_params(pairs)[j];
    assert(spec_symbol_pattern(toks, q) == Ok::<(SymbolPattern, int), SyntaxError>((param.pattern, q + 1)));
    assert(spec_ty(toks, q + 2) == Ok::<(TypeExpr, int), SyntaxError>((TypeExpr::Name(pair.2, pair.3), q + 3)));
    assert(spec_param(toks, q, kind) == Ok::<(FnParam, int), SyntaxError>((param, q + 3)));
    let acc2 = (acc + typed_params(pairs).take(j)).push(param);
    assert(acc2 =~= acc + typed_params(pairs).take(j + 1));
    if j + 1 < pairs.len() {
        assert(toks[q + 3].kind == TokenKind::Comma);
        lemma_typed_params_from(toks, pos, pairs, kind, acc, j + 1);
    } else {
        assert(toks[q + 3].kind == TokenKind::CloseParen);
        assert(typed_params(pairs).take(j + 1) =~= typed_params(pairs));
    }
}

/// A parameter list written as `name: type` pairs parses back into those
/// parameters, in a value's prototype and in a type's alike.
pub proof fn law_typed_params_parse_back(
    toks: Seq<Token>,
    pos: int,
    pairs: Seq<(u64, Span, u64, Span)>,
    kind: ParseProtoKind,
)
    requires
        tokens_wf(toks),
        pairs.len() > 0,
        0 <= pos,
        toks[pos].kind == TokenKind::OpenParen,
        spells_typed_params(toks, pos + 1, pairs),
    ensures
        spec_fn_params(toks, pos, kind) == Ok::<(Seq<FnParam>, bool, int), SyntaxError>(
            (typed_params(pairs), false, pos + 1 + 4 * pairs.len())),
{
    lemma_typed_params_from(toks, pos + 1, pairs, kind, seq![], 0);
    assert(seq![] + typed_params(pairs).take(0) =~= Seq::<FnParam>::empty());
    assert(Seq::<FnParam>::empty() + typed_params(pairs) =~= typed_params(pairs));
}


/// The tokens from `pos` spell the names `names`, separated by `,` and
/// closed by `)`; each name is given with its span.
pub open spec fn spells_names(toks: Seq<Token>, pos: int, names: Seq<(u64, Span)>) -> bool {
    &&& 0 <= pos
    &&& pos + 2 * names.len() < toks.len()
    &&& forall|k: int| 0 <= k < names.len() ==> {
        &&& toks[pos + 2 * k] == Token { kind: TokenKind::Id((#[trigger] names[k]).0), span: names[k].1 }
        &&& toks[pos + 2 * k + 1].kind == if k + 1 < names.len() { TokenKind::Comma } else { TokenKind::CloseParen }
    }
}

/// The parameters of a function value that bind `names`, without types.
pub open spec fn untyped_params(names: Seq<(u64, Span)>) -> Seq<FnParam> {
    Seq::new(names.len(), |k: int| FnParam {
        pattern: SymbolPattern { symbol: names[k].0, span: names[k].1, is_mutable: false, ignore: false },
        ty: None,
    })
}

/// The unnamed parameters of a function type whose types are `names`.
pub open spec fn unnamed_params(names: Seq<(u64, Span)>) -> Seq<FnParam> {
    Seq::new(names.len(), |k: int| FnParam {
        pattern: SymbolPattern {
            symbol: EMPTY_NAME,
            span: Span { file_id: 0, start: 0, end: 0 },
            is_mutable: false,
            ignore: true,
        },
        ty: Some(TypeExpr::Name(names[k].0, names[k].1)),
    })
}

spec fn bare_params(names: Seq<(u64, Span)>, kind: ParseProtoKind) -> Seq<FnParam> {
    match kind {
        ParseProtoKind::Value => untyped_params(names),
        ParseProtoKind::Type => unnamed_params(names),
    }
}

proof fn lemma_bare_names_from(
    toks: Seq<Token>,
    pos: int,
    names: Seq<(u64, Span)>,
    kind: ParseProtoKind,
    j: int,
)
    requires
        tokens_wf(toks),
        names.len() > 0,
        spells_names(toks, pos, names),
        0 <= j < names.len(),
    ensures
        spec_params_list(toks, pos + 2 * j, kind, bare_params(names, kind).take(j))
            == Ok::<(Seq<FnParam>, bool, int), SyntaxError>((bare_params(names, kind), false, pos + 2 * names.len())),
    decreases names.len() - j,
{
    let q = pos + 2 * j;
    let name = names[j];
    assert(toks[q] == Token { kind: TokenKind::Id(name.0), span: name.1 });
    let param = bare_params(names, kind)[j];
    if j + 1 < names.len() {
        assert(toks[q + 1].kind == TokenKind::Comma);
    } else {
        assert(toks[q + 1].kind == TokenKind::CloseParen);
    }
    match kind {
        ParseProtoKind::Value => {
            assert(spec_symbol_pattern(toks, q) == Ok::<(SymbolPattern, int), SyntaxError>((param.pattern, q + 1)));
        },
        ParseProtoKind::Type => {
            assert(spec_ty(toks, q) == Ok::<(TypeExpr, int), SyntaxError>((TypeExpr::Name(name.0, name.1), q + 1)));
        },
    }
    assert(spec_param(toks, q, kind) == Ok::<(FnParam, int), SyntaxError>((param, q + 1)));
    assert(bare_params(names, kind).take(j).push(param) =~= bare_params(names, kind).take(j + 1));
    if j + 1 < names.len() {
        lemma_bare_names_from(toks, pos, names, kind, j + 1);
    } else {
        assert(bare_params(names, kind).take(j + 1) =~= bare_params(names, kind));
    }
}

/// A parameter list of bare names `(a, b, ..)`: in a function value's
/// prototype each name is bound, with no type; in a function type's
/// prototype each name is the type of an unnamed parameter.
pub proof fn law_bare_names_parse(toks: Seq<Token>, pos: int, names: Seq<(u64, Span)>)
    requires
        tokens_wf(toks),
        names.len() > 0,
        0 <= pos,
        toks[pos].kind == TokenKind::OpenParen,
        spells_names(toks, pos + 1, names),
    ensures
        spec_fn_params(toks, pos, ParseProtoKind::Value) == Ok::<(Seq<FnParam>, bool, int), SyntaxError>(
            (untyped_params(names), false, pos + 1 + 2 * names.len())),
        spec_fn_params(toks, pos, ParseProtoKind::Type) == Ok::<(Seq<FnParam>, bool, int), SyntaxError>(
            (unnamed_params(names), false, pos + 1 + 2 * names.len())),
{
    lemma_bare_names_from(toks, pos + 1, names, ParseProtoKind::Value, 0);
    lemma_bare_names_from(toks, pos + 1, names, ParseProtoKind::Type, 0);
    assert(bare_params(names, ParseProtoKind::Value).take(0) =~= Seq::<FnParam>::empty());
    assert(bare_params(names, ParseProtoKind::Type).take(0) =~= Seq::<FnParam>::empty());
}

/// A function type's prototype `(A, B) -> R` has unnamed parameters of types
/// `A` and `B` and returns `R`; without `->` it has no return type.
pub proof fn law_type_prototype_of_bare_names(toks: Seq<Token>, pos: int, names: Seq<(u64, Span)>)
    requires
        tokens_wf(toks),
        names.len() > 0,
        0 <= pos,
        toks[pos].kind == TokenKind::OpenParen,
        spells_names(toks, pos + 1, names),
    ensures
        ({
            let end = pos + 1 + 2 * names.len();
            &&& toks[end].kind != TokenKind::RightArrow ==> spec_fn_proto(toks, pos, ParseProtoKind::Type)
                == Ok::<((Seq<FnParam>, bool, Option<Box<TypeExpr>>), int), SyntaxError>(
                ((unnamed_params(names), false, None), end))
            &&& (toks[end].kind == TokenKind::RightArrow && toks[end + 1].kind is Id) ==> spec_fn_proto(
                toks,
                pos,
                ParseProtoKind::Type,
            ) == Ok::<((Seq<FnParam>, bool, Option<Box<TypeExpr>>), int), SyntaxError>((
                (
                    unnamed_params(names),
                    false,
                    Some(Box::new(TypeExpr::Name(toks[end + 1].kind->Id_0, toks[end + 1].span))),
                ),
                end + 2,
            ))
        }),
{
    law_bare_names_parse(toks, pos, names);
}

/// A prototype without parentheses has no parameters and is not variadic;
/// `(..)` has no parameters and is variadic, in a value's prototype and in a
/// type's alike.
pub proof fn law_empty_and_variadic_lists(toks: Seq<Token>, pos: int, kind: ParseProtoKind)
    requires
        tokens_wf(toks),
        0 <= pos < toks.len(),
    ensures
        toks[pos].kind != TokenKind::OpenParen ==> spec_fn_params(toks, pos, kind)
            == Ok::<(Seq<FnParam>, bool, int), SyntaxError>((seq![], false, pos)),
        (toks[pos].kind == TokenKind::OpenParen && toks[pos + 1].kind == TokenKind::DotDot
            && toks[pos + 2].kind == TokenKind::CloseParen) ==> spec_fn_params(toks, pos, kind)
            == Ok::<(Seq<FnParam>, bool, int), SyntaxError>((seq![], true, pos + 3)),
{
    if toks[pos].kind == TokenKind::OpenParen && toks[pos + 1].kind == TokenKind::DotDot {
        assert(pos + 1 < toks.len());
    }
}

/// The parameters and the `..` of a prototype are those of its parameter
/// list, parsed as the same kind; a list that does not parse fails the
/// prototype.
pub proof fn law_prototype_params_are_the_list(toks: Seq<Token>, pos: int, kind: ParseProtoKind)
    ensures
        spec_fn_params(toks, pos, kind) is Err ==> spec_fn_proto(toks, pos, kind) is Err,
        spec_fn_proto(toks, pos, kind) matches Ok(((params, variadic, _), _)) ==> spec_fn_params(toks, pos, kind)
            matches Ok((ps, v, _)) && ps == params && v == variadic,
{
}

} // verus!
