use vstd::prelude::*;
use crate::span::Span;
use crate::parse_spec::{
    next_pos, spec_block_end, spec_fn_params, spec_fn_proto, spec_param, spec_params_list, spec_symbol_pattern, spec_ty, spec_typed_param,
    spells_names, syntax_error, tokens_wf, untyped_params, law_bare_names_parse, Expected, FnParam, ParseProtoKind, SymbolPattern, SyntaxError,
    Token, TokenKind, TypeExpr, EMPTY_NAME,
};

verus! {

/// A parser over a token sequence that ends in `Eof`.
pub struct Parser {
    pub tokens: Vec<Token>,
    pub current: usize,
    /// The names of the declarations being parsed, innermost last.
    pub decl_name_frames: Vec<u64>,
}

/// The parser can go on: its tokens end in their only `Eof` and it stands on one of them.
pub open spec fn parser_wf(p: Parser) -> bool {
    &&& tokens_wf(p.tokens@)
    &&& p.current < p.tokens@.len()
}

/// `new` is `old` moved to position `pos`.
pub open spec fn moved(old_p: Parser, new_p: Parser, pos: int) -> bool {
    &&& new_p.tokens == old_p.tokens
    &&& new_p.decl_name_frames == old_p.decl_name_frames
    &&& new_p.current == pos
    &&& parser_wf(new_p)
}

/// The parser moves to where the spec parse ends and gives what it gives.
pub open spec fn follows<T>(old_p: Parser, new_p: Parser, r: Result<T, SyntaxError>, s: Result<(T, int), SyntaxError>) -> bool {
    match r {
        Ok(v) => s == Ok::<(T, int), SyntaxError>((v, new_p.current as int)) && moved(old_p, new_p, new_p.current as int),
        Err(e) => s == Err::<(T, int), SyntaxError>(e) && parser_wf(new_p) && new_p.tokens == old_p.tokens
            && new_p.decl_name_frames == old_p.decl_name_frames,
    }
}

impl Parser {
    /// The kind of the token the parser stands on.
    pub fn peek_kind(&self) -> (k: TokenKind)
        requires
            parser_wf(*self),
        ensures
            k == self.tokens@[self.current as int].kind,
    {
        self.tokens[self.current].kind
    }

    /// The span of the token the parser stands on.
    pub fn span(&self) -> (s: Span)
        requires
            parser_wf(*self),
        ensures
            s == self.tokens@[self.current as int].span,
    {
        self.tokens[self.current].span
    }

    pub fn is_end(&self) -> (b: bool)
        requires
            parser_wf(*self),
        ensures
            b == (self.tokens@[self.current as int].kind == TokenKind::Eof),
    {
        match self.tokens[self.current].kind {
            TokenKind::Eof => true,
            _ => false,
        }
    }

    /// Steps over the current token, unless it is `Eof`.
    pub fn advance(&mut self)
        requires
            parser_wf(*old(self)),
        ensures
            moved(*old(self), *final(self), next_pos(old(self).tokens@, old(self).current as int)),
    {
        if !self.is_end() {
            assert(self.current + 1 < self.tokens.len());
            self.current += 1;
        }
    }

    /// Steps over the current token when it is of kind `kind`.
    pub fn match_token(&mut self, kind: TokenKind) -> (b: bool)
        requires
            parser_wf(*old(self)),
            kind != TokenKind::Eof,
        ensures
            b == (old(self).tokens@[old(self).current as int].kind == kind),
            moved(*old(self), *final(self), if b { old(self).current + 1 } else { old(self).current as int }),
    {
        if self.peek_kind() == kind {
            self.advance();
            true
        } else {
            false
        }
    }

    /// Steps over the current token when it is a name.
    pub fn match_id(&mut self) -> (b: bool)
        requires
            parser_wf(*old(self)),
        ensures
            b == (old(self).tokens@[old(self).current as int].kind is Id),
            moved(*old(self), *final(self), if b { old(self).current + 1 } else { old(self).current as int }),
    {
        match self.peek_kind() {
            TokenKind::Id(_) => {
                self.advance();
                true
            },
            _ => false,
        }
    }

    /// Steps back over `n` tokens.
    pub fn revert(&mut self, n: usize)
        requires
            parser_wf(*old(self)),
            n <= old(self).current,
        ensures
            moved(*old(self), *final(self), old(self).current - n),
    {
        self.current -= n;
    }

    /// Steps over a token of kind `kind`, or fails, expecting `expected`.
    pub fn require(&mut self, kind: TokenKind, expected: Expected) -> (r: Result<(), SyntaxError>)
        requires
            parser_wf(*old(self)),
            kind != TokenKind::Eof,
        ensures
            match r {
                Ok(()) => old(self).tokens@[old(self).current as int].kind == kind
                    && moved(*old(self), *final(self), old(self).current + 1),
                Err(e) => old(self).tokens@[old(self).current as int].kind != kind
                    && e == syntax_error(old(self).tokens@, old(self).current as int, expected)
                    && *final(self) == *old(self),
            },
    {
        if self.match_token(kind) {
            Ok(())
        } else {
            Err(SyntaxError { span: self.span(), expected })
        }
    }

    /// A name or `_`, possibly after `mut`.
    pub fn parse_symbol_pattern(&mut self) -> (r: Result<SymbolPattern, SyntaxError>)
        requires
            parser_wf(*old(self)),
        ensures
            follows(*old(self), *final(self), r, spec_symbol_pattern(old(self).tokens@, old(self).current as int)),
    {
        let is_mutable = self.match_token(TokenKind::Mut);
        let span = self.span();
        match self.peek_kind() {
            TokenKind::Id(symbol) => {
                self.advance();
                Ok(SymbolPattern { symbol, span, is_mutable, ignore: false })
            },
            TokenKind::Placeholder => {
                self.advance();
                Ok(SymbolPattern { symbol: EMPTY_NAME, span, is_mutable, ignore: true })
            },
            _ => Err(SyntaxError { span, expected: Expected::Pattern }),
        }
    }

    /// A type: a name, or `*` and a type.
    pub fn parse_ty(&mut self) -> (r: Result<TypeExpr, SyntaxError>)
        requires
            parser_wf(*old(self)),
        ensures
            follows(*old(self), *final(self), r, spec_ty(old(self).tokens@, old(self).current as int)),
        decreases old(self).tokens@.len() - old(self).current,
    {
        let span = self.span();
        match self.peek_kind() {
            TokenKind::Id(symbol) => {
                self.advance();
                Ok(TypeExpr::Name(symbol, span))
            },
            TokenKind::Star => {
                self.advance();
                let inner = self.parse_ty()?;
                Ok(TypeExpr::Pointer(Box::new(inner)))
            },
            _ => Err(SyntaxError { span, expected: Expected::Type }),
        }
    }
}


/// A successful pattern parse steps forward and stops on a token.
proof fn lemma_symbol_pattern_progress(toks: Seq<Token>, pos: int)
    requires
        tokens_wf(toks),
        0 <= pos < toks.len(),
    ensures
        spec_symbol_pattern(toks, pos) matches Ok((_, p)) ==> pos < p < toks.len(),
        spec_symbol_pattern(toks, pos) matches Err(e) ==> exists|q: int| pos <= q < toks.len() && e.span == toks[q].span,
{
}

/// A successful type parse steps forward and stops on a token.
proof fn lemma_ty_progress(toks: Seq<Token>, pos: int)
    requires
        tokens_wf(toks),
        0 <= pos < toks.len(),
    ensures
        spec_ty(toks, pos) matches Ok((_, p)) ==> pos < p < toks.len(),
    decreases toks.len() - pos,
{
    if toks[pos].kind == TokenKind::Star {
        lemma_ty_progress(toks, pos + 1);
    }
}

/// A successful parameter parse steps forward and stops on a token.
proof fn lemma_param_progress(toks: Seq<Token>, pos: int, kind: ParseProtoKind)
    requires
        tokens_wf(toks),
        0 <= pos < toks.len(),
    ensures
        spec_param(toks, pos, kind) matches Ok((_, p)) ==> pos < p < toks.len(),
{
    lemma_symbol_pattern_progress(toks, pos);
    lemma_ty_progress(toks, pos);
    if let Ok((_, p1)) = spec_symbol_pattern(toks, pos) {
        if p1 + 1 < toks.len() {
            lemma_ty_progress(toks, p1 + 1);
        }
    }
}

impl Parser {
    /// A pattern, `:` and a type.
    fn parse_typed_param(&mut self) -> (r: Result<FnParam, SyntaxError>)
        requires
            parser_wf(*old(self)),
        ensures
            follows(*old(self), *final(self), r, spec_typed_param(old(self).tokens@, old(self).current as int)),
    {
        let pattern = self.parse_symbol_pattern()?;
        self.require(TokenKind::Colon, Expected::Colon)?;
        let ty = self.parse_ty()?;
        Ok(FnParam { pattern, ty: Some(ty) })
    }

    /// One parameter of a prototype of the given kind.
    fn parse_param(&mut self, kind: ParseProtoKind) -> (r: Result<FnParam, SyntaxError>)
        requires
            parser_wf(*old(self)),
        ensures
            follows(*old(self), *final(self), r, spec_param(old(self).tokens@, old(self).current as int, kind)),
    {
        match kind {
            ParseProtoKind::Value => {
                let pattern = self.parse_symbol_pattern()?;
                let ty = if self.match_token(TokenKind::Colon) {
                    let ty = self.parse_ty()?;
                    Some(ty)
                } else {
                    None
                };
                Ok(FnParam { pattern, ty })
            },
            ParseProtoKind::Type => {
                // the parameter's name is optional, so a name or `_` is a
                // name only when a `:` follows it
                if self.match_id() || self.match_token(TokenKind::Placeholder) {
                    if self.match_token(TokenKind::Colon) {
                        // (a: {type}, ..)
                        self.revert(2);
                        self.parse_typed_param()
                    } else {
                        // ({type}, ..)
                        self.revert(1);
                        let pattern = SymbolPattern {
                            symbol: EMPTY_NAME,
                            span: Span::unknown(),
                            is_mutable: false,
                            ignore: true,
                        };
                        let ty = self.parse_ty()?;
                        Ok(FnParam { pattern, ty: Some(ty) })
                    }
                } else {
                    // (a: {type}, ..)
                    self.parse_typed_param()
                }
            },
        }
    }

    /// An optional parameter list in parentheses: the parameters, and
    /// whether the list ends in `..` (variadic).
    pub fn parse_fn_params(&mut self, kind: ParseProtoKind) -> (r: Result<(Vec<FnParam>, bool), SyntaxError>)
        requires
            parser_wf(*old(self)),
        ensures
            match r {
                Ok((params, variadic)) => spec_fn_params(old(self).tokens@, old(self).current as int, kind)
                    == Ok::<(Seq<FnParam>, bool, int), SyntaxError>((params@, variadic, final(self).current as int))
                    && moved(*old(self), *final(self), final(self).current as int),
                Err(e) => spec_fn_params(old(self).tokens@, old(self).current as int, kind)
                    == Err::<(Seq<FnParam>, bool, int), SyntaxError>(e)
                    && parser_wf(*final(self)) && final(self).tokens == old(self).tokens
                    && final(self).decl_name_frames == old(self).decl_name_frames,
            },
    {
        let ghost toks = self.tokens@;
        let ghost start = *self;
        let ghost whole = spec_fn_params(toks, self.current as int, kind);
        if !self.match_token(TokenKind::OpenParen) {
            return Ok((Vec::new(), false));
        }
        let mut params: Vec<FnParam> = Vec::new();
        let mut variadic = false;
        loop
            invariant_except_break
                variadic == false,
                whole == spec_params_list(toks, self.current as int, kind, params@),
            invariant
                start == *old(self),
                whole == spec_fn_params(toks, start.current as int, kind),
                parser_wf(*self),
                self.tokens == start.tokens,
                self.decl_name_frames == start.decl_name_frames,
                toks == self.tokens@,
            ensures
                whole == Ok::<(Seq<FnParam>, bool, int), SyntaxError>((params@, variadic, self.current as int)),
            decreases toks.len() - self.current,
        {
            let ghost pos = self.current as int;
            assert(whole == spec_params_list(toks, pos, kind, params@));
            if self.match_token(TokenKind::CloseParen) {
                break;
            }
            if self.is_end() {
                break;
            }
            if self.match_token(TokenKind::DotDot) {
                match self.require(TokenKind::CloseParen, Expected::CloseParen) {
                    Ok(()) => {},
                    Err(e) => {
                        assert(whole == Err::<(Seq<FnParam>, bool, int), SyntaxError>(e));
                        return Err(e);
                    },
                }
                variadic = true;
                break;
            }
            proof {
                lemma_param_progress(toks, pos, kind);
            }
            let param = match self.parse_param(kind) {
                Ok(param) => param,
                Err(e) => {
                    assert(whole == Err::<(Seq<FnParam>, bool, int), SyntaxError>(e));
                    return Err(e);
                },
            };
            params.push(param);
            if self.match_token(TokenKind::Comma) {
                continue;
            } else if self.match_token(TokenKind::CloseParen) {
                break;
            } else {
                return Err(SyntaxError { span: self.span(), expected: Expected::CommaOrCloseParen });
            }
        }
        Ok((params, variadic))
    }
}


/// A function prototype. Its type, an id of the type context, is unknown
/// (`None`) until the prototype is checked.
#[derive(Debug)]
pub struct Proto {
    pub lib_name: Option<u64>,
    pub name: u64,
    pub params: Vec<FnParam>,
    pub variadic: bool,
    pub ret: Option<Box<TypeExpr>>,
    pub ty: Option<usize>,
}

/// A block, by the positions of its first token inside the braces and of
/// its closing `}`.
#[derive(Clone, Copy, Debug, PartialEq, Eq, Structural)]
pub struct Block {
    pub start: usize,
    pub end: usize,
}

/// A function value: its prototype, its body and its span.
#[derive(Debug)]
pub struct FnExpr {
    pub proto: Proto,
    pub body: Block,
    pub is_startup: bool,
    pub span: Span,
}

/// The body of a function from `pos`: `{`, a block, and the position after its `}`.
pub open spec fn spec_fn_body(toks: Seq<Token>, pos: int) -> Result<(Block, int), SyntaxError> {
    if toks[pos].kind == TokenKind::OpenCurly {
        match spec_block_end(toks, pos + 1, 0) {
            Ok(end) => Ok((Block { start: (pos + 1) as usize, end: (end - 1) as usize }, end)),
            Err(e) => Err(e),
        }
    } else {
        Err(syntax_error(toks, pos, Expected::OpenCurly))
    }
}

/// A block that ends ends after where it starts.
proof fn lemma_block_end_progress(toks: Seq<Token>, pos: int, depth: nat)
    ensures
        spec_block_end(toks, pos, depth) matches Ok(end) ==> pos < end,
    decreases toks.len() - pos,
{
    if 0 <= pos < toks.len() && toks[pos].kind != TokenKind::Eof {
        if toks[pos].kind == TokenKind::CloseCurly {
            if depth > 0 {
                lemma_block_end_progress(toks, pos + 1, (depth - 1) as nat);
            }
        } else if toks[pos].kind == TokenKind::OpenCurly {
            lemma_block_end_progress(toks, pos + 1, depth + 1);
        } else {
            lemma_block_end_progress(toks, pos + 1, depth);
        }
    }
}

/// The name of the innermost declaration being parsed, or the empty name.
pub open spec fn decl_name(frames: Seq<u64>) -> u64 {
    if frames.len() > 0 { frames.last() } else { EMPTY_NAME }
}

/// The prototype and the body of a function value after `fn` at `pos - 1`.
pub open spec fn spec_parse_fn(toks: Seq<Token>, pos: int)
    -> Result<((Seq<FnParam>, bool, Option<Box<TypeExpr>>), Block, Span, int), SyntaxError> {
    match spec_fn_proto(toks, pos, ParseProtoKind::Value) {
        Err(e) => Err(e),
        Ok((proto, p1)) => match spec_fn_body(toks, p1) {
            Err(e) => Err(e),
            Ok((body, p2)) => Ok((proto, body, Span {
                file_id: toks[pos - 1].span.file_id,
                start: toks[pos - 1].span.start,
                end: toks[p2 - 1].span.end,
            }, p2)),
        },
    }
}

/// A function value's prototype is parsed as a value's: its parameters, its
/// `..` and its return type are those of the value prototype at the same
/// place, and its body starts where that prototype ends.
pub proof fn law_fn_value_prototype(toks: Seq<Token>, pos: int)
    requires
        1 <= pos,
    ensures
        spec_parse_fn(toks, pos) is Ok ==> {
            let f = spec_parse_fn(toks, pos)->Ok_0;
            let pr = spec_fn_proto(toks, pos, ParseProtoKind::Value);
            &&& pr is Ok
            &&& pr->Ok_0.0 == f.0
            &&& spec_fn_body(toks, pr->Ok_0.1) is Ok
            &&& spec_fn_body(toks, pr->Ok_0.1)->Ok_0.0 == f.1
        },
        spec_fn_proto(toks, pos, ParseProtoKind::Value) is Err ==> spec_parse_fn(toks, pos) is Err,
{
}

/// A function value `fn (a, b, ..) { .. }` binds each name of its parameter
/// list as a parameter with no type, is not variadic and has no return type.
pub proof fn law_fn_value_binds_bare_names(toks: Seq<Token>, pos: int, names: Seq<(u64, Span)>)
    requires
        tokens_wf(toks),
        names.len() > 0,
        1 <= pos,
        toks[pos].kind == TokenKind::OpenParen,
        spells_names(toks, pos + 1, names),
        toks[pos + 1 + 2 * names.len()].kind != TokenKind::RightArrow,
    ensures
        spec_parse_fn(toks, pos) is Ok <==> spec_fn_body(toks, pos + 1 + 2 * names.len()) is Ok,
        spec_parse_fn(toks, pos) matches Ok((proto, _, _, _)) ==> proto.0 == untyped_params(names) && !proto.1
            && proto.2 is None,
{
    law_bare_names_parse(toks, pos, names);
}

proof fn lemma_fn_params_progress(toks: Seq<Token>, pos: int, kind: ParseProtoKind)
    requires
        tokens_wf(toks),
        0 <= pos < toks.len(),
    ensures
        spec_fn_params(toks, pos, kind) matches Ok((_, _, p)) ==> pos <= p < toks.len(),
{
    if toks[pos].kind == TokenKind::OpenParen {
        lemma_params_list_progress(toks, pos + 1, kind, seq![]);
    }
}

proof fn lemma_params_list_progress(toks: Seq<Token>, pos: int, kind: ParseProtoKind, acc: Seq<FnParam>)
    requires
        tokens_wf(toks),
        0 <= pos < toks.len(),
    ensures
        spec_params_list(toks, pos, kind, acc) matches Ok((_, _, p)) ==> pos <= p < toks.len(),
    decreases toks.len() - pos,
{
    lemma_param_progress(toks, pos, kind);
    if toks[pos].kind != TokenKind::CloseParen && toks[pos].kind != TokenKind::Eof
        && toks[pos].kind != TokenKind::DotDot {
        if let Ok((param, p1)) = spec_param(toks, pos, kind) {
            if toks[p1].kind == TokenKind::Comma {
                lemma_params_list_progress(toks, p1 + 1, kind, acc.push(param));
            }
        }
    }
}

impl Parser {
    /// A prototype named `name`: parameters and an optional return type.
    pub fn parse_fn_proto(&mut self, name: u64, kind: ParseProtoKind) -> (r: Result<Proto, SyntaxError>)
        requires
            parser_wf(*old(self)),
        ensures
            match r {
                Ok(proto) => {
                    &&& proto.name == name
                    &&& proto.lib_name is None
                    &&& proto.ty is None
                    &&& spec_fn_proto(old(self).tokens@, old(self).current as int, kind)
                        == Ok::<((Seq<FnParam>, bool, Option<Box<TypeExpr>>), int), SyntaxError>(
                        ((proto.params@, proto.variadic, proto.ret), final(self).current as int))
                    &&& moved(*old(self), *final(self), final(self).current as int)
                },
                Err(e) => spec_fn_proto(old(self).tokens@, old(self).current as int, kind)
                    == Err::<((Seq<FnParam>, bool, Option<Box<TypeExpr>>), int), SyntaxError>(e)
                    && parser_wf(*final(self)) && final(self).tokens == old(self).tokens
                    && final(self).decl_name_frames == old(self).decl_name_frames,
            },
    {
        let (params, variadic) = match self.parse_fn_params(kind) {
            Ok(x) => x,
            Err(e) => return Err(e),
        };
        let ret = if self.match_token(TokenKind::RightArrow) {
            match self.parse_ty() {
                Ok(t) => Some(Box::new(t)),
                Err(e) => return Err(e),
            }
        } else {
            None
        };
        Ok(Proto { lib_name: None, name, params, variadic, ret, ty: None })
    }

    /// The rest of a block after its `{`: steps over balanced braces up to
    /// the closing `}`.
    fn parse_block(&mut self) -> (r: Result<Block, SyntaxError>)
        requires
            parser_wf(*old(self)),
        ensures
            match r {
                Ok(b) => spec_block_end(old(self).tokens@, old(self).current as int, 0) == Ok::<int, SyntaxError>(
                    final(self).current as int) && b == (Block { start: old(self).current, end: (final(self).current - 1) as usize })
                    && moved(*old(self), *final(self), final(self).current as int),
                Err(e) => spec_block_end(old(self).tokens@, old(self).current as int, 0) == Err::<int, SyntaxError>(e)
                    && *final(self) == *old(self),
            },
    {
        let start = self.current;
        let ghost toks = self.tokens@;
        let mut pos = self.current;
        let mut depth: usize = 0;
        while pos < self.tokens.len()
            invariant
                tokens_wf(toks),
                toks == self.tokens@,
                *self == *old(self),
                parser_wf(*self),
                self.current == start,
                start <= pos < toks.len(),
                depth <= pos - start,
                spec_block_end(toks, start as int, 0) == spec_block_end(toks, pos as int, depth as nat),
            decreases toks.len() - pos,
        {
            match self.tokens[pos].kind {
                TokenKind::Eof => {
                    return Err(SyntaxError { span: self.tokens[pos].span, expected: Expected::CloseCurly });
                },
                TokenKind::CloseCurly => {
                    if depth == 0 {
                        self.current = pos + 1;
                        return Ok(Block { start, end: pos });
                    }
                    depth -= 1;
                },
                TokenKind::OpenCurly => {
                    depth += 1;
                },
                _ => {},
            }
            assert(pos + 1 < toks.len());
            pos += 1;
        }
        assert(false);
        Err(SyntaxError { span: self.span(), expected: Expected::CloseCurly })
    }

    /// A function body: `{` and a block.
    pub fn parse_fn_body(&mut self) -> (r: Result<Block, SyntaxError>)
        requires
            parser_wf(*old(self)),
        ensures
            follows(*old(self), *final(self), r, spec_fn_body(old(self).tokens@, old(self).current as int)),
    {
        match self.require(TokenKind::OpenCurly, Expected::OpenCurly) {
            Ok(()) => {},
            Err(e) => return Err(e),
        }
        self.parse_block()
    }

    /// The name of the innermost declaration being parsed, or the empty name.
    pub fn get_decl_name(&self) -> (name: u64)
        ensures
            name == decl_name(self.decl_name_frames@),
    {
        let n = self.decl_name_frames.len();
        if n > 0 { self.decl_name_frames[n - 1] } else { EMPTY_NAME }
    }

    /// A function value, after its `fn` keyword: its prototype, named after
    /// the declaration being parsed, and its body; its span runs from `fn`
    /// to the closing `}`.
    pub fn parse_fn(&mut self) -> (r: Result<FnExpr, SyntaxError>)
        requires
            parser_wf(*old(self)),
            old(self).current > 0,
        ensures
            match r {
                Ok(f) => {
                    &&& f.proto.name == decl_name(old(self).decl_name_frames@)
                    &&& f.proto.lib_name is None
                    &&& f.proto.ty is None
                    &&& !f.is_startup
                    &&& spec_parse_fn(old(self).tokens@, old(self).current as int)
                        == Ok::<((Seq<FnParam>, bool, Option<Box<TypeExpr>>), Block, Span, int), SyntaxError>((
                        (f.proto.params@, f.proto.variadic, f.proto.ret), f.body, f.span, final(self).current as int))
                    &&& moved(*old(self), *final(self), final(self).current as int)
                },
                Err(e) => spec_parse_fn(old(self).tokens@, old(self).current as int)
                    == Err::<((Seq<FnParam>, bool, Option<Box<TypeExpr>>), Block, Span, int), SyntaxError>(e)
                    && parser_wf(*final(self)) && final(self).tokens == old(self).tokens,
            },
    {
        let name = self.get_decl_name();
        let start_span = self.tokens[self.current - 1].span;
        let proto = match self.parse_fn_proto(name, ParseProtoKind::Value) {
            Ok(p) => p,
            Err(e) => return Err(e),
        };
        let ghost body_pos = self.current as int;
        let body = match self.parse_fn_body() {
            Ok(b) => b,
            Err(e) => return Err(e),
        };
        proof {
            lemma_block_end_progress(self.tokens@, body_pos + 1, 0);
        }
        let end_span = self.tokens[self.current - 1].span;
        Ok(FnExpr { proto, body, is_startup: false, span: Span::merge(&start_span, &end_span) })
    }
}

} // verus!
