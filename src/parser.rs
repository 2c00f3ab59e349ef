use vstd::prelude::*;
use std::rc::Rc;
use vstd::utf8::{encode_utf8, is_char_boundary};
use vstd::string::StringSliceAdditionalSpecFns;
use crate::ast::{Expr, Function, Literal, Stmt};
use crate::literal::{float_units, int_units, parse_float, parse_int};
use crate::number::Number;
use crate::token::{infix_bp, prefix_bp, span_fits, Span, Token, TokenKind};

verus! {

/// What the parser was looking for when it met an unexpected token.
#[derive(Clone, Copy, PartialEq, Eq, Debug, Structural)]
pub enum Expected {
    Expression,
    OperatorOrTerminator,
    Statement,
    Identifier,
    FunctionIdentifier,
    StatementOrEnd,
    Token(TokenKind),
}

/// Why a parse failed.
#[derive(Clone, Debug, PartialEq)]
pub enum ParseError {
    /// The token at `span` has kind `found` where `expected` was required.
    UnexpectedToken { expected: Expected, found: TokenKind, span: Span },
    /// A numeric literal's text has no value that a number can hold.
    InvalidLiteral { kind: TokenKind, text: String, span: Span },
    /// The input ended where more was required.
    UnexpectedEof,
}

/// A statement as seen in contracts, with its lists seen as sequences.
pub enum StmtV {
    FnDef { ident: String, params: Seq<String>, body: Seq<StmtV> },
    Assign { ident: String, expr: Expr },
    Push(Expr),
    Print(Expr),
    FnCall(String),
    Pop,
}

pub open spec fn stmt_view(s: Stmt) -> StmtV
    decreases s,
    via stmt_view_decreases
{
    match s {
        Stmt::FnDef(f) => StmtV::FnDef {
            ident: f.ident,
            params: f.params@,
            body: Seq::new(
                f.body@.len(),
                |i: int|
                    if 0 <= i < f.body@.len() {
                        stmt_view(f.body@[i])
                    } else {
                        StmtV::Pop
                    },
            ),
        },
        Stmt::Assign { ident, expr } => StmtV::Assign { ident, expr },
        Stmt::Push(e) => StmtV::Push(e),
        Stmt::Print(e) => StmtV::Print(e),
        Stmt::FnCall(n) => StmtV::FnCall(n),
        Stmt::Pop => StmtV::Pop,
    }
}

#[via_fn]
proof fn stmt_view_decreases(s: Stmt) {
    broadcast use vstd::std_specs::vec::axiom_vec_decreases_to_view;
    match s {
        Stmt::FnDef(f) => {
            assert forall|i: int| 0 <= i < f.body@.len() implies decreases_to!(s => f.body@[i]) by {
                assert(decreases_to!(f.body => f.body@));
                assert(decreases_to!(f.body@ => f.body@[i]));
            }
        },
        _ => {},
    }
}

/// The statements of a list, each seen through `stmt_view`.
pub open spec fn body_view(ss: Seq<Stmt>) -> Seq<StmtV> {
    Seq::new(ss.len(), |i: int| stmt_view(ss[i]))
}

/// The kind of the token at `i`; past the end the input reads as its end.
pub open spec fn kind(t: Seq<Token>, i: int) -> TokenKind {
    if 0 <= i < t.len() {
        t[i].kind
    } else {
        TokenKind::Eof
    }
}

/// The span of the token at `i`; past the end, that of the last token.
pub open spec fn span_at(t: Seq<Token>, i: int) -> Span {
    if 0 <= i < t.len() {
        t[i].span
    } else if t.len() > 0 {
        t.last().span
    } else {
        Span { start: 0, end: 0 }
    }
}

pub open spec fn unexpected(t: Seq<Token>, i: int, expected: Expected) -> ParseError {
    ParseError::UnexpectedToken { expected, found: kind(t, i), span: span_at(t, i) }
}

pub open spec fn is_literal_kind(k: TokenKind) -> bool {
    k == TokenKind::IntLit || k == TokenKind::FloatLit || k == TokenKind::StringLit || k
        == TokenKind::True || k == TokenKind::False
}

/// The kinds after which the infix loop looks for a binding power.
pub open spec fn is_operator_kind(k: TokenKind) -> bool {
    match k {
        TokenKind::Plus | TokenKind::Minus | TokenKind::Multiply | TokenKind::Divide
        | TokenKind::And | TokenKind::Or | TokenKind::Less | TokenKind::Greater | TokenKind::Not
        | TokenKind::LessEq | TokenKind::GreaterEq | TokenKind::NotEq | TokenKind::Equals => true,
        _ => false,
    }
}

pub open spec fn is_terminator(k: TokenKind) -> bool {
    k == TokenKind::Eof || k == TokenKind::RightParen || k == TokenKind::Newline
}

/// The literal written by the token at `i`, whose text is `x[i]`.
pub open spec fn literal_spec(t: Seq<Token>, x: Seq<String>, i: int) -> Result<Literal, ParseError> {
    let k = kind(t, i);
    let bad = ParseError::InvalidLiteral { kind: k, text: x[i], span: t[i].span };
    if k == TokenKind::IntLit {
        match int_units(encode_utf8(x[i]@)) {
            Some(u) => Ok(Literal::Int(Number { units: u as i64 })),
            None => Err(bad),
        }
    } else if k == TokenKind::FloatLit {
        match float_units(encode_utf8(x[i]@)) {
            Some(u) => Ok(Literal::Float(Number { units: u as i64 })),
            None => Err(bad),
        }
    } else if k == TokenKind::StringLit {
        Ok(Literal::String(x[i]))
    } else {
        Ok(Literal::Bool(k == TokenKind::True))
    }
}

/// Parses an expression at `pos` whose operators bind at least as tightly as
/// `bp`: the expression and the position after it. Each step consumes a
/// token; the checks that a position moved forward within the input only
/// make that visible to the recursion, and always pass.
pub open spec fn expr_spec(t: Seq<Token>, x: Seq<String>, pos: int, bp: int) -> Result<
    (Expr, int),
    ParseError,
>
    decreases t.len() + 1 - pos, 1int,
{
    if !(0 <= pos <= t.len()) {
        Err(ParseError::UnexpectedEof)
    } else {
        let k = kind(t, pos);
        let prim: Result<(Expr, int), ParseError> = if k == TokenKind::Ident {
            Ok((Expr::Ident(x[pos]), pos + 1))
        } else if k == TokenKind::Pop {
            Ok((Expr::Pop, pos + 1))
        } else if is_literal_kind(k) {
            match literal_spec(t, x, pos) {
                Ok(l) => Ok((Expr::Literal(l), pos + 1)),
                Err(err) => Err(err),
            }
        } else if k == TokenKind::LeftParen {
            match expr_spec(t, x, pos + 1, 0) {
                Ok((e, p)) => if kind(t, p) == TokenKind::RightParen {
                    Ok((e, p + 1))
                } else {
                    Err(unexpected(t, p, Expected::Token(TokenKind::RightParen)))
                },
                Err(err) => Err(err),
            }
        } else if k == TokenKind::Minus || k == TokenKind::Not {
            match expr_spec(t, x, pos + 1, prefix_bp(k)->Some_0 as int) {
                Ok((e, p)) => Ok((Expr::UnaryOp { op: k, expr: Box::new(e) }, p)),
                Err(err) => Err(err),
            }
        } else if k == TokenKind::Eof {
            Err(ParseError::UnexpectedEof)
        } else {
            Err(unexpected(t, pos, Expected::Expression))
        };
        match prim {
            Ok((lhs, p)) => if pos < p <= t.len() {
                infix_spec(t, x, lhs, p, bp)
            } else {
                Err(ParseError::UnexpectedEof)
            },
            Err(err) => Err(err),
        }
    }
}

/// The infix loop: extends `lhs`, found before `pos`, with the operators at
/// `pos` on that bind at least as tightly as `bp`, grouping to the left.
pub open spec fn infix_spec(t: Seq<Token>, x: Seq<String>, lhs: Expr, pos: int, bp: int) -> Result<
    (Expr, int),
    ParseError,
>
    decreases t.len() + 1 - pos, 0int,
{
    if !(0 <= pos <= t.len()) {
        Err(ParseError::UnexpectedEof)
    } else {
        let k = kind(t, pos);
        if is_operator_kind(k) {
            match infix_bp(k) {
                None => Ok((lhs, pos)),
                Some((l, r)) => if (l as int) < bp {
                    Ok((lhs, pos))
                } else {
                    match expr_spec(t, x, pos + 1, r as int) {
                        Ok((rhs, p)) => if pos < p <= t.len() {
                            infix_spec(
                                t,
                                x,
                                Expr::BinaryOp { op: k, lhs: Box::new(lhs), rhs: Box::new(rhs) },
                                p,
                                bp,
                            )
                        } else {
                            Err(ParseError::UnexpectedEof)
                        },
                        Err(err) => Err(err),
                    }
                },
            }
        } else if is_terminator(k) {
            Ok((lhs, pos))
        } else {
            Err(unexpected(t, pos, Expected::OperatorOrTerminator))
        }
    }
}

/// The kinds that can begin a statement inside a function body.
pub open spec fn is_stmt_start(k: TokenKind) -> bool {
    k == TokenKind::SetKeyword || k == TokenKind::Push || k == TokenKind::Pop || k == TokenKind::Print
        || k == TokenKind::Begin || k == TokenKind::Call
}

/// The index just past the identifiers that start at `p`.
pub open spec fn ident_run_end(t: Seq<Token>, p: int) -> int
    decreases t.len() - p,
{
    if 0 <= p < t.len() && t[p].kind == TokenKind::Ident {
        ident_run_end(t, p + 1)
    } else {
        p
    }
}

/// The index just past the newlines that start at `p`.
pub open spec fn newline_run_end(t: Seq<Token>, p: int) -> int
    decreases t.len() - p,
{
    if 0 <= p < t.len() && t[p].kind == TokenKind::Newline {
        newline_run_end(t, p + 1)
    } else {
        p
    }
}

/// `pre` put before the statements of a successful parse.
pub open spec fn prepend(pre: Seq<StmtV>, r: Result<(Seq<StmtV>, int), ParseError>) -> Result<
    (Seq<StmtV>, int),
    ParseError,
> {
    match r {
        Ok((rest, p)) => Ok((pre + rest, p)),
        Err(err) => Err(err),
    }
}

/// An expression statement: `expr` at `pos`, then a newline.
pub open spec fn expr_line(t: Seq<Token>, x: Seq<String>, pos: int, k: TokenKind, ident: String) -> Result<
    (StmtV, int),
    ParseError,
> {
    match expr_spec(t, x, pos, 0) {
        Ok((e, p)) => if kind(t, p) == TokenKind::Newline {
            Ok(
                (
                    if k == TokenKind::SetKeyword {
                        StmtV::Assign { ident, expr: e }
                    } else if k == TokenKind::Push {
                        StmtV::Push(e)
                    } else {
                        StmtV::Print(e)
                    },
                    p + 1,
                ),
            )
        } else {
            Err(unexpected(t, p, Expected::Token(TokenKind::Newline)))
        },
        Err(err) => Err(err),
    }
}

/// Parses one statement at `pos`, after any newlines: the statement and
/// the position after it. Every statement but a function definition ends
/// with a newline.
pub open spec fn stmt_spec(t: Seq<Token>, x: Seq<String>, pos: int) -> Result<(StmtV, int), ParseError>
    decreases t.len() + 1 - pos, 0int,
{
    if !(0 <= pos <= t.len()) {
        Err(ParseError::UnexpectedEof)
    } else {
        let k = kind(t, pos);
        if k == TokenKind::SetKeyword {
            if kind(t, pos + 1) != TokenKind::Ident {
                Err(unexpected(t, pos + 1, Expected::Identifier))
            } else {
                expr_line(t, x, pos + 2, k, x[pos + 1])
            }
        } else if k == TokenKind::Push || k == TokenKind::Print {
            expr_line(t, x, pos + 1, k, x[pos])
        } else if k == TokenKind::Pop {
            if kind(t, pos + 1) == TokenKind::Newline {
                Ok((StmtV::Pop, pos + 2))
            } else {
                Err(unexpected(t, pos + 1, Expected::Token(TokenKind::Newline)))
            }
        } else if k == TokenKind::Call {
            if kind(t, pos + 1) != TokenKind::Ident {
                Err(unexpected(t, pos + 1, Expected::FunctionIdentifier))
            } else if kind(t, pos + 2) != TokenKind::Newline {
                Err(unexpected(t, pos + 2, Expected::Token(TokenKind::Newline)))
            } else {
                Ok((StmtV::FnCall(x[pos + 1]), pos + 3))
            }
        } else if k == TokenKind::Begin {
            if kind(t, pos + 1) != TokenKind::Ident {
                Err(unexpected(t, pos + 1, Expected::Identifier))
            } else if kind(t, pos + 2) != TokenKind::Colon {
                Err(unexpected(t, pos + 2, Expected::Token(TokenKind::Colon)))
            } else {
                let q = ident_run_end(t, pos + 3);
                if !(pos + 3 <= q < t.len()) || kind(t, q) != TokenKind::Newline {
                    Err(unexpected(t, q, Expected::Token(TokenKind::Newline)))
                } else {
                    match body_spec(t, x, q + 1) {
                        Ok((body, p)) => Ok(
                            (StmtV::FnDef { ident: x[pos + 1], params: x.subrange(pos + 3, q), body }, p),
                        ),
                        Err(err) => Err(err),
                    }
                }
            }
        } else if k == TokenKind::Newline {
            let p = newline_run_end(t, pos);
            if pos < p <= t.len() {
                stmt_spec(t, x, p)
            } else {
                Err(ParseError::UnexpectedEof)
            }
        } else if k == TokenKind::Eof {
            Err(ParseError::UnexpectedEof)
        } else {
            Err(unexpected(t, pos, Expected::Statement))
        }
    }
}

/// Parses a function body at `pos`: statements up to and including `end`.
pub open spec fn body_spec(t: Seq<Token>, x: Seq<String>, pos: int) -> Result<
    (Seq<StmtV>, int),
    ParseError,
>
    decreases t.len() + 1 - pos, 1int,
{
    if !(0 <= pos <= t.len()) {
        Err(ParseError::UnexpectedEof)
    } else {
        match stmt_spec(t, x, pos) {
            Err(err) => Err(err),
            Ok((st, p)) => if !(pos < p <= t.len()) {
                Err(ParseError::UnexpectedEof)
            } else if kind(t, p) == TokenKind::End {
                Ok((seq![st], p + 1))
            } else if is_stmt_start(kind(t, p)) {
                prepend(seq![st], body_spec(t, x, p))
            } else {
                Err(unexpected(t, p, Expected::StatementOrEnd))
            },
        }
    }
}

/// Parses statements from `pos` until the input ends; an unexpected end of
/// input where a statement would begin or inside one ends the program.
pub open spec fn program_spec(t: Seq<Token>, x: Seq<String>, pos: int) -> Result<
    Seq<StmtV>,
    ParseError,
>
    decreases t.len() + 1 - pos,
{
    match stmt_spec(t, x, pos) {
        Err(ParseError::UnexpectedEof) => Ok(Seq::empty()),
        Err(err) => Err(err),
        Ok((st, p)) => if 0 <= pos < p <= t.len() {
            match program_spec(t, x, p) {
                Ok(rest) => Ok(seq![st] + rest),
                Err(err) => Err(err),
            }
        } else {
            Err(ParseError::UnexpectedEof)
        },
    }
}

/// A statement parse outcome, with the statement seen through its view.
pub open spec fn stmt_outcome(r: Result<Stmt, ParseError>, p: int) -> Result<(StmtV, int), ParseError> {
    match r {
        Ok(st) => Ok((stmt_view(st), p)),
        Err(err) => Err(err),
    }
}

/// Where the text kept for a token lies: a string literal's without its
/// surrounding quotes, any other token's whole.
pub open spec fn text_range(input: &str, tok: Token) -> (int, int) {
    let (a, b) = (tok.span.start as int, tok.span.end as int);
    let bytes = input.spec_bytes();
    if tok.kind == TokenKind::StringLit && b - a >= 2 && is_char_boundary(bytes, a + 1)
        && is_char_boundary(bytes, b - 1) {
        (a + 1, b - 1)
    } else {
        (a, b)
    }
}

/// `s` is the text kept for `tok` in `input`.
pub open spec fn text_of(input: &str, tok: Token, s: Seq<char>) -> bool {
    let (a, b) = text_range(input, tok);
    encode_utf8(s) == input.spec_bytes().subrange(a, b)
}

pub open spec fn all_fit(input: &str, tokens: Seq<Token>) -> bool {
    forall|i: int| 0 <= i < tokens.len() ==> span_fits(input, #[trigger] tokens[i].span)
}

/// Whether every token's span lies in `input` on character boundaries, as
/// `Parser::new` requires.
pub fn spans_fit(input: &str, tokens: &Vec<Token>) -> (r: bool)
    ensures
        r == all_fit(input, tokens@),
{
    let mut i: usize = 0;
    while i < tokens.len()
        invariant
            i <= tokens@.len(),
            forall|j: int| 0 <= j < i ==> span_fits(input, #[trigger] tokens@[j].span),
        decreases tokens@.len() - i,
    {
        let sp = tokens[i].span;
        if !(sp.start <= sp.end && input.is_char_boundary(sp.start) && input.is_char_boundary(sp.end)) {
            return false;
        }
        proof {
            vstd::utf8::encode_utf8_valid_utf8(input@);
        }
        i = i + 1;
    }
    true
}

fn literal_kind(k: TokenKind) -> (r: bool)
    ensures
        r == is_literal_kind(k),
{
    match k {
        TokenKind::IntLit | TokenKind::FloatLit | TokenKind::StringLit | TokenKind::True
        | TokenKind::False => true,
        _ => false,
    }
}

fn operator_kind(k: TokenKind) -> (r: bool)
    ensures
        r == is_operator_kind(k),
{
    match k {
        TokenKind::Plus | TokenKind::Minus | TokenKind::Multiply | TokenKind::Divide
        | TokenKind::And | TokenKind::Or | TokenKind::Less | TokenKind::Greater | TokenKind::Not
        | TokenKind::LessEq | TokenKind::GreaterEq | TokenKind::NotEq | TokenKind::Equals => true,
        _ => false,
    }
}

/// A parser over a token sequence that ends with an end-of-input token,
/// keeping each token's text.
pub struct Parser {
    tokens: Vec<Token>,
    texts: Vec<String>,
    pos: usize,
}

impl Parser {
    pub closed spec fn tokens(&self) -> Seq<Token> {
        self.tokens@
    }

    pub closed spec fn texts(&self) -> Seq<String> {
        self.texts@
    }

    /// The index of the next token.
    pub closed spec fn position(&self) -> int {
        self.pos as int
    }

    pub closed spec fn wf(&self) -> bool {
        &&& self.texts@.len() == self.tokens@.len()
        &&& self.pos <= self.tokens@.len()
    }

    /// The same tokens and texts, at any position.
    pub open spec fn same_input(&self, other: &Parser) -> bool {
        &&& self.tokens() == other.tokens()
        &&& self.texts() == other.texts()
    }

    /// A parser at the start of `tokens`, whose spans lie in `input`.
    pub fn new(input: &str, tokens: Vec<Token>) -> (r: Parser)
        requires
            all_fit(input, tokens@),
        ensures
            r.wf(),
            r.tokens() == tokens@,
            r.position() == 0,
            forall|i: int| 0 <= i < tokens@.len() ==> text_of(input, tokens@[i], #[trigger] r.texts()[i]@),
    {
        let mut texts: Vec<String> = Vec::new();
        let mut i: usize = 0;
        while i < tokens.len()
            invariant
                i <= tokens@.len(),
                texts@.len() == i,
                all_fit(input, tokens@),
                forall|j: int| 0 <= j < i ==> text_of(input, tokens@[j], #[trigger] texts@[j]@),
            decreases tokens@.len() - i,
        {
            let tok = tokens[i];
            assert(span_fits(input, tokens@[i as int].span));
            let (a, b) = (tok.span.start, tok.span.end);
            let span = if tok.kind == TokenKind::StringLit && b - a >= 2 && input.is_char_boundary(a + 1)
                && input.is_char_boundary(b - 1) {
                Span { start: a + 1, end: b - 1 }
            } else {
                tok.span
            };
            let piece = Token { kind: tok.kind, span }.text(input);
            texts.push(piece.to_owned());
            i = i + 1;
        }
        Parser { tokens, texts, pos: 0 }
    }

    /// The text kept for the token at `index`.
    pub fn text(&self, index: usize) -> (r: &str)
        requires
            self.wf(),
            index < self.tokens().len(),
        ensures
            r@ == self.texts()[index as int]@,
    {
        self.texts[index].as_str()
    }

    /// The kind of the next token, without consuming it.
    pub fn peek(&self) -> (r: TokenKind)
        requires
            self.wf(),
        ensures
            r == kind(self.tokens(), self.position()),
    {
        if self.pos < self.tokens.len() {
            self.tokens[self.pos].kind
        } else {
            TokenKind::Eof
        }
    }

    /// Whether the next token has kind `k`.
    pub fn at(&self, k: TokenKind) -> (r: bool)
        requires
            self.wf(),
        ensures
            r == (kind(self.tokens(), self.position()) == k),
    {
        self.peek() == k
    }

    /// Consumes and returns the next token; `None` past the end.
    pub fn next_token(&mut self) -> (r: Option<Token>)
        requires
            old(self).wf(),
        ensures
            final(self).wf(),
            final(self).same_input(old(self)),
            old(self).position() < old(self).tokens().len() ==> r == Some(
                old(self).tokens()[old(self).position()],
            ) && final(self).position() == old(self).position() + 1,
            old(self).position() >= old(self).tokens().len() ==> r is None && final(self).position()
                == old(self).position(),
    {
        if self.pos < self.tokens.len() {
            let t = self.tokens[self.pos];
            self.advance();
            Some(t)
        } else {
            None
        }
    }

    fn advance(&mut self)
        requires
            old(self).wf(),
            old(self).position() < old(self).tokens().len(),
        ensures
            final(self).wf(),
            final(self).same_input(old(self)),
            final(self).position() == old(self).position() + 1,
    {
        if self.pos < self.tokens.len() {
            self.pos = self.pos + 1;
        }
    }

    fn unexpected_here(&self, expected: Expected) -> (r: ParseError)
        requires
            self.wf(),
        ensures
            r == unexpected(self.tokens(), self.position(), expected),
    {
        let span = if self.pos < self.tokens.len() {
            self.tokens[self.pos].span
        } else if self.tokens.len() > 0 {
            self.tokens[self.tokens.len() - 1].span
        } else {
            Span { start: 0, end: 0 }
        };
        ParseError::UnexpectedToken { expected, found: self.peek(), span }
    }

    /// Consumes the next token if it has kind `expected`, else reports it.
    /// Past the end the input reads as its end, which stays where it is.
    pub fn consume(&mut self, expected: TokenKind) -> (r: Result<(), ParseError>)
        requires
            old(self).wf(),
        ensures
            final(self).wf(),
            final(self).same_input(old(self)),
            kind(old(self).tokens(), old(self).position()) == expected ==> r is Ok
                && final(self).position() == if old(self).position() < old(self).tokens().len() {
                old(self).position() + 1
            } else {
                old(self).position()
            },
            kind(old(self).tokens(), old(self).position()) != expected ==> r == Err::<(), ParseError>(
                unexpected(old(self).tokens(), old(self).position(), Expected::Token(expected)),
            ),
    {
        if self.peek() == expected {
            if self.pos < self.tokens.len() {
                self.advance();
            }
            Ok(())
        } else {
            Err(self.unexpected_here(Expected::Token(expected)))
        }
    }

    fn parse_lit(&mut self) -> (r: Result<Literal, ParseError>)
        requires
            old(self).wf(),
            is_literal_kind(kind(old(self).tokens(), old(self).position())),
        ensures
            final(self).wf(),
            final(self).same_input(old(self)),
            match r {
                Ok(l) => literal_spec(old(self).tokens(), old(self).texts(), old(self).position())
                    == Ok::<Literal, ParseError>(l) && final(self).position() == old(self).position()
                    + 1,
                Err(err) => literal_spec(old(self).tokens(), old(self).texts(), old(self).position())
                    == Err::<Literal, ParseError>(err),
            },
    {
        let i = self.pos;
        let k = self.tokens[i].kind;
        let text = &self.texts[i];
        let lit = match k {
            TokenKind::IntLit => match parse_int(text.as_str().as_bytes()) {
                Some(n) => Literal::Int(n),
                None => {
                    return Err(
                        ParseError::InvalidLiteral { kind: k, text: text.clone(), span: self.tokens[i].span },
                    );
                },
            },
            TokenKind::FloatLit => match parse_float(text.as_str().as_bytes()) {
                Some(n) => Literal::Float(n),
                None => {
                    return Err(
                        ParseError::InvalidLiteral { kind: k, text: text.clone(), span: self.tokens[i].span },
                    );
                },
            },
            TokenKind::StringLit => Literal::String(text.clone()),
            _ => Literal::Bool(k == TokenKind::True),
        };
        self.advance();
        Ok(lit)
    }

    /// Parses an expression whose operators bind at least as tightly as
    /// `bp`, by precedence climbing.
    fn parse_expr(&mut self, bp: u8) -> (r: Result<Expr, ParseError>)
        requires
            old(self).wf(),
        ensures
            final(self).wf(),
            final(self).same_input(old(self)),
            match r {
                Ok(e) => expr_spec(old(self).tokens(), old(self).texts(), old(self).position(), bp as int)
                    == Ok::<(Expr, int), ParseError>((e, final(self).position()))
                    && old(self).position() < final(self).position(),
                Err(err) => expr_spec(old(self).tokens(), old(self).texts(), old(self).position(), bp as int)
                    == Err::<(Expr, int), ParseError>(err),
            },
        decreases old(self).tokens@.len() + 1 - old(self).pos,
    {
        let ghost t = self.tokens@;
        let ghost x = self.texts@;
        let ghost start = self.pos as int;
        let k = self.peek();
        let mut lhs = if k == TokenKind::Ident {
            let e = Expr::Ident(self.texts[self.pos].clone());
            self.advance();
            e
        } else if k == TokenKind::Pop {
            self.advance();
            Expr::Pop
        } else if literal_kind(k) {
            Expr::Literal(self.parse_lit()?)
        } else if k == TokenKind::LeftParen {
            self.advance();
            let e = self.parse_expr(0)?;
            if self.peek() != TokenKind::RightParen {
                return Err(self.unexpected_here(Expected::Token(TokenKind::RightParen)));
            }
            self.advance();
            e
        } else if k == TokenKind::Minus || k == TokenKind::Not {
            self.advance();
            let right = match k.prefix_binding_power() {
                Some(p) => p,
                None => 0,
            };
            let e = self.parse_expr(right)?;
            Expr::UnaryOp { op: k, expr: Box::new(e) }
        } else if k == TokenKind::Eof {
            return Err(ParseError::UnexpectedEof);
        } else {
            return Err(self.unexpected_here(Expected::Expression));
        };
        assert(expr_spec(t, x, start, bp as int) == infix_spec(t, x, lhs, self.pos as int, bp as int));
        loop
            invariant
                self.wf(),
                self.tokens@ == t,
                self.texts@ == x,
                t == old(self).tokens@,
                x == old(self).texts@,
                start == old(self).pos,
                start < self.pos,
                expr_spec(t, x, start, bp as int) == infix_spec(t, x, lhs, self.pos as int, bp as int),
            ensures
                infix_spec(t, x, lhs, self.pos as int, bp as int) == Ok::<(Expr, int), ParseError>(
                    (lhs, self.pos as int),
                ),
            decreases t.len() + 1 - self.pos,
        {
            let k = self.peek();
            if operator_kind(k) {
                match k.infix_binding_power() {
                    None => break,
                    Some((left, right)) => {
                        if left < bp {
                            break;
                        }
                        self.advance();
                        let rhs = self.parse_expr(right)?;
                        lhs = Expr::BinaryOp { op: k, lhs: Box::new(lhs), rhs: Box::new(rhs) };
                    },
                }
            } else if k == TokenKind::Eof || k == TokenKind::RightParen || k == TokenKind::Newline {
                break;
            } else {
                return Err(self.unexpected_here(Expected::OperatorOrTerminator));
            }
        }
        Ok(lhs)
    }

    /// Parses one expression.
    pub fn expr(&mut self) -> (r: Result<Expr, ParseError>)
        requires
            old(self).wf(),
        ensures
            final(self).wf(),
            final(self).same_input(old(self)),
            match r {
                Ok(e) => expr_spec(old(self).tokens(), old(self).texts(), old(self).position(), 0)
                    == Ok::<(Expr, int), ParseError>((e, final(self).position())),
                Err(err) => expr_spec(old(self).tokens(), old(self).texts(), old(self).position(), 0)
                    == Err::<(Expr, int), ParseError>(err),
            },
    {
        self.parse_expr(0)
    }

    /// Parses one statement.
    pub fn parse_stmt(&mut self) -> (r: Result<Stmt, ParseError>)
        requires
            old(self).wf(),
        ensures
            final(self).wf(),
            final(self).same_input(old(self)),
            stmt_outcome(r, final(self).position()) == stmt_spec(
                old(self).tokens(),
                old(self).texts(),
                old(self).position(),
            ),
            r is Ok ==> old(self).position() < final(self).position(),
        decreases old(self).tokens().len() + 1 - old(self).position(), 2int,
    {
        let k = self.peek();
        if k == TokenKind::SetKeyword {
            self.advance();
            if self.peek() != TokenKind::Ident {
                return Err(self.unexpected_here(Expected::Identifier));
            }
            let ident = self.texts[self.pos].clone();
            self.advance();
            let expr = self.parse_expr(0)?;
            self.consume(TokenKind::Newline)?;
            Ok(Stmt::Assign { ident, expr })
        } else if k == TokenKind::Push || k == TokenKind::Print {
            self.advance();
            let expr = self.parse_expr(0)?;
            self.consume(TokenKind::Newline)?;
            if k == TokenKind::Push {
                Ok(Stmt::Push(expr))
            } else {
                Ok(Stmt::Print(expr))
            }
        } else if k == TokenKind::Pop {
            self.advance();
            self.consume(TokenKind::Newline)?;
            Ok(Stmt::Pop)
        } else if k == TokenKind::Call {
            self.advance();
            if self.peek() != TokenKind::Ident {
                return Err(self.unexpected_here(Expected::FunctionIdentifier));
            }
            let ident = self.texts[self.pos].clone();
            self.advance();
            self.consume(TokenKind::Newline)?;
            Ok(Stmt::FnCall(ident))
        } else if k == TokenKind::Begin {
            self.parse_fndef()
        } else if k == TokenKind::Newline {
            let ghost start = self.pos as int;
            self.advance();
            while self.peek() == TokenKind::Newline
                invariant
                    self.wf(),
                    self.same_input(old(self)),
                    start < self.pos,
                    newline_run_end(self.tokens(), start) == newline_run_end(self.tokens(), self.pos as int),
                decreases self.tokens@.len() - self.pos,
            {
                self.advance();
            }
            self.parse_stmt()
        } else if k == TokenKind::Eof {
            Err(ParseError::UnexpectedEof)
        } else {
            Err(self.unexpected_here(Expected::Statement))
        }
    }

    fn parse_fndef(&mut self) -> (r: Result<Stmt, ParseError>)
        requires
            old(self).wf(),
            kind(old(self).tokens(), old(self).position()) == TokenKind::Begin,
        ensures
            final(self).wf(),
            final(self).same_input(old(self)),
            stmt_outcome(r, final(self).position()) == stmt_spec(
                old(self).tokens(),
                old(self).texts(),
                old(self).position(),
            ),
            r is Ok ==> old(self).position() < final(self).position(),
        decreases old(self).tokens().len() + 1 - old(self).position(), 1int,
    {
        let ghost t = self.tokens@;
        let ghost x = self.texts@;
        let ghost start = self.pos as int;
        self.advance();
        if self.peek() != TokenKind::Ident {
            return Err(self.unexpected_here(Expected::Identifier));
        }
        let ident = self.texts[self.pos].clone();
        self.advance();
        self.consume(TokenKind::Colon)?;
        let mut params: Vec<String> = Vec::new();
        while self.peek() == TokenKind::Ident
            invariant
                self.wf(),
                self.same_input(old(self)),
                t == old(self).tokens(),
                x == old(self).texts(),
                start == old(self).position(),
                start + 3 <= self.pos,
                params@ == x.subrange(start + 3, self.pos as int),
                ident_run_end(t, start + 3) == ident_run_end(t, self.pos as int),
            decreases t.len() - self.pos,
        {
            params.push(self.texts[self.pos].clone());
            self.advance();
            assert(params@ =~= x.subrange(start + 3, self.pos as int));
        }
        let ghost q = self.pos as int;
        assert(ident_run_end(t, q) == q);
        if self.peek() != TokenKind::Newline {
            return Err(self.unexpected_here(Expected::Token(TokenKind::Newline)));
        }
        self.advance();
        let mut body: Vec<Stmt> = Vec::new();
        assert(body_view(body@) =~= Seq::<StmtV>::empty());
        assert(stmt_spec(t, x, start) == match body_spec(t, x, q + 1) {
            Ok((b, p)) => Ok((StmtV::FnDef { ident, params: params@, body: b }, p)),
            Err(err) => Err(err),
        });
        loop
            invariant_except_break
                body_spec(t, x, q + 1) == prepend(body_view(body@), body_spec(t, x, self.pos as int)),
            invariant
                stmt_spec(t, x, start) == match body_spec(t, x, q + 1) {
                    Ok((b, p)) => Ok((StmtV::FnDef { ident, params: params@, body: b }, p)),
                    Err(err) => Err(err),
                },
                self.wf(),
                self.same_input(old(self)),
                t == old(self).tokens(),
                x == old(self).texts(),
                start == old(self).position(),
                start + 3 <= q < self.pos,
            ensures
                body_spec(t, x, q + 1) == Ok::<(Seq<StmtV>, int), ParseError>(
                    (body_view(body@), self.pos as int),
                ),
                start + 3 <= q < self.pos,
            decreases t.len() + 1 - self.pos,
        {
            let ghost before = body@;
            let st = self.parse_stmt()?;
            body.push(st);
            assert(body_view(body@) =~= body_view(before) + seq![stmt_view(st)]);
            let k = self.peek();
            if k == TokenKind::End {
                self.advance();
                break;
            }
            if !(k == TokenKind::SetKeyword || k == TokenKind::Push || k == TokenKind::Pop
                || k == TokenKind::Print || k == TokenKind::Begin || k == TokenKind::Call) {
                return Err(self.unexpected_here(Expected::StatementOrEnd));
            }
            proof {
                match body_spec(t, x, self.pos as int) {
                    Ok((rest, _)) => {
                        assert(body_view(before) + (seq![stmt_view(st)] + rest) =~= body_view(body@) + rest);
                    },
                    Err(_) => {},
                }
            }
        }
        let f = Rc::new(Function { ident, params, body });
        let st = Stmt::FnDef(f);
        assert(stmt_view(st) is FnDef);
        assert(stmt_view(st)->FnDef_ident == f.ident);
        assert(stmt_view(st)->FnDef_params == f.params@);
        assert(stmt_view(st)->FnDef_body =~= body_view(f.body@));
        Ok(st)
    }

    /// Parses statements until the input ends. An unexpected end of input,
    /// where a statement would begin or inside one, ends the program without
    /// error; any other error is returned.
    pub fn parse(&mut self) -> (r: Result<Vec<Stmt>, ParseError>)
        requires
            old(self).wf(),
        ensures
            final(self).wf(),
            final(self).same_input(old(self)),
            match r {
                Ok(v) => program_spec(old(self).tokens(), old(self).texts(), old(self).position())
                    == Ok::<Seq<StmtV>, ParseError>(body_view(v@)),
                Err(err) => program_spec(old(self).tokens(), old(self).texts(), old(self).position())
                    == Err::<Seq<StmtV>, ParseError>(err),
            },
    {
        let ghost t = self.tokens@;
        let ghost x = self.texts@;
        let ghost start = self.pos as int;
        let mut stmts: Vec<Stmt> = Vec::new();
        assert(body_view(stmts@) =~= Seq::<StmtV>::empty());
        loop
            invariant_except_break
                program_spec(t, x, start) == match program_spec(t, x, self.pos as int) {
                    Ok(rest) => Ok(body_view(stmts@) + rest),
                    Err(err) => Err(err),
                },
            invariant
                self.wf(),
                self.same_input(old(self)),
                t == old(self).tokens(),
                x == old(self).texts(),
                start == old(self).position(),
            ensures
                program_spec(t, x, start) == Ok::<Seq<StmtV>, ParseError>(body_view(stmts@)),
            decreases t.len() + 1 - self.pos,
        {
            let ghost before = stmts@;
            let ghost at = self.pos as int;
            match self.parse_stmt() {
                Ok(st) => {
                    stmts.push(st);
                    assert(body_view(stmts@) =~= body_view(before) + seq![stmt_view(st)]);
                    assert(forall|rest: Seq<StmtV>| body_view(before) + (seq![stmt_view(st)] + rest) =~= body_view(stmts@) + rest);
                },
                Err(ParseError::UnexpectedEof) => {
                    assert(body_view(stmts@) + Seq::<StmtV>::empty() =~= body_view(stmts@));
                    break;
                },
                Err(err) => {
                    return Err(err);
                },
            }
        }
        Ok(stmts)
    }
}

} // verus!
