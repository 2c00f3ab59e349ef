use vstd::prelude::*;
use vstd::utf8::is_char_boundary;
use vstd::string::StringSliceAdditionalSpecFns;

verus! {

/// The kinds of token that the lexer hands to the parser.
#[derive(Clone, Copy, PartialEq, Eq, Debug, Structural)]
pub enum TokenKind {
    Pop,
    Print,
    Push,
    SetKeyword,
    Call,
    Ident,
    IntLit,
    FloatLit,
    StringLit,
    Begin,
    End,
    Comment,
    True,
    False,
    And,
    Not,
    Or,
    Newline,
    Colon,
    LeftBracket,
    RightBracket,
    LeftParen,
    RightParen,
    Plus,
    Minus,
    Multiply,
    Divide,
    Less,
    Greater,
    LessEq,
    GreaterEq,
    NotEq,
    Equals,
    Error,
    Eof,
}

/// The word used for each kind in diagnostics.
pub open spec fn kind_name(k: TokenKind) -> Seq<char> {
    match k {
        TokenKind::Pop => "pop"@,
        TokenKind::Print => "print"@,
        TokenKind::Push => "push"@,
        TokenKind::SetKeyword => "set"@,
        TokenKind::Call => "call"@,
        TokenKind::Ident => "identifier"@,
        TokenKind::IntLit => "integer literal"@,
        TokenKind::FloatLit => "float literal"@,
        TokenKind::StringLit => "string literal"@,
        TokenKind::Begin => "begin"@,
        TokenKind::End => "'end'"@,
        TokenKind::Comment => "comment literal"@,
        TokenKind::True => "true"@,
        TokenKind::False => "false"@,
        TokenKind::And => "and"@,
        TokenKind::Not => "not"@,
        TokenKind::Or => "or"@,
        TokenKind::Newline => "newline"@,
        TokenKind::Colon => "colon"@,
        TokenKind::LeftBracket => "["@,
        TokenKind::RightBracket => "]"@,
        TokenKind::LeftParen => "("@,
        TokenKind::RightParen => ")"@,
        TokenKind::Plus => "+"@,
        TokenKind::Minus => "-"@,
        TokenKind::Multiply => "*"@,
        TokenKind::Divide => "/"@,
        TokenKind::Less => "<"@,
        TokenKind::Greater => ">"@,
        TokenKind::LessEq => "<="@,
        TokenKind::GreaterEq => ">="@,
        TokenKind::NotEq => "!="@,
        TokenKind::Equals => "=="@,
        TokenKind::Error => "error"@,
        TokenKind::Eof => "EOF"@,
    }
}

impl TokenKind {
    /// The word used for this kind in diagnostics and in printed syntax trees.
    pub fn name(&self) -> (r: &'static str)
        ensures
            r@ == kind_name(*self),
    {
        match self {
            TokenKind::Pop => "pop",
            TokenKind::Print => "print",
            TokenKind::Push => "push",
            TokenKind::SetKeyword => "set",
            TokenKind::Call => "call",
            TokenKind::Ident => "identifier",
            TokenKind::IntLit => "integer literal",
            TokenKind::FloatLit => "float literal",
            TokenKind::StringLit => "string literal",
            TokenKind::Begin => "begin",
            TokenKind::End => "'end'",
            TokenKind::Comment => "comment literal",
            TokenKind::True => "true",
            TokenKind::False => "false",
            TokenKind::And => "and",
            TokenKind::Not => "not",
            TokenKind::Or => "or",
            TokenKind::Newline => "newline",
            TokenKind::Colon => "colon",
            TokenKind::LeftBracket => "[",
            TokenKind::RightBracket => "]",
            TokenKind::LeftParen => "(",
            TokenKind::RightParen => ")",
            TokenKind::Plus => "+",
            TokenKind::Minus => "-",
            TokenKind::Multiply => "*",
            TokenKind::Divide => "/",
            TokenKind::Less => "<",
            TokenKind::Greater => ">",
            TokenKind::LessEq => "<=",
            TokenKind::GreaterEq => ">=",
            TokenKind::NotEq => "!=",
            TokenKind::Equals => "==",
            TokenKind::Error => "error",
            TokenKind::Eof => "EOF",
        }
    }
}

/// Binding power of a prefix operator.
pub open spec fn prefix_bp(k: TokenKind) -> Option<u8> {
    match k {
        TokenKind::Minus => Some(51u8),
        TokenKind::Not => Some(101u8),
        _ => None,
    }
}

/// Left and right binding powers of an infix operator: higher binds tighter,
/// and the right power exceeds the left so that operators group to the left.
pub open spec fn infix_bp(k: TokenKind) -> Option<(u8, u8)> {
    match k {
        TokenKind::Or => Some((1u8, 2u8)),
        TokenKind::And => Some((3u8, 4u8)),
        TokenKind::Equals | TokenKind::NotEq => Some((5u8, 6u8)),
        TokenKind::Less | TokenKind::Greater | TokenKind::LessEq | TokenKind::GreaterEq => Some(
            (7u8, 8u8),
        ),
        TokenKind::Plus | TokenKind::Minus => Some((9u8, 10u8)),
        TokenKind::Multiply | TokenKind::Divide => Some((11u8, 12u8)),
        _ => None,
    }
}

impl TokenKind {
    pub fn prefix_binding_power(&self) -> (r: Option<u8>)
        ensures
            r == prefix_bp(*self),
    {
        match self {
            TokenKind::Minus => Some(51),
            TokenKind::Not => Some(101),
            _ => None,
        }
    }

    pub fn infix_binding_power(&self) -> (r: Option<(u8, u8)>)
        ensures
            r == infix_bp(*self),
    {
        match self {
            TokenKind::Or => Some((1, 2)),
            TokenKind::And => Some((3, 4)),
            TokenKind::Equals | TokenKind::NotEq => Some((5, 6)),
            TokenKind::Less | TokenKind::Greater | TokenKind::LessEq | TokenKind::GreaterEq => Some(
                (7, 8),
            ),
            TokenKind::Plus | TokenKind::Minus => Some((9, 10)),
            TokenKind::Multiply | TokenKind::Divide => Some((11, 12)),
            _ => None,
        }
    }
}

/// A half-open byte range `start..end` into the source text.
#[derive(Clone, Copy, PartialEq, Eq, Debug, Structural)]
pub struct Span {
    pub start: usize,
    pub end: usize,
}

/// A token: its kind and where its text lies in the source.
#[derive(Clone, Copy, PartialEq, Eq, Debug, Structural)]
pub struct Token {
    pub kind: TokenKind,
    pub span: Span,
}

/// The span lies inside `input` and both its ends fall on character boundaries.
pub open spec fn span_fits(input: &str, span: Span) -> bool {
    &&& span.start <= span.end <= input.spec_bytes().len()
    &&& is_char_boundary(input.spec_bytes(), span.start as int)
    &&& is_char_boundary(input.spec_bytes(), span.end as int)
}

/// Line and column, both 0-based, of the position just after the bytes `b`:
/// a newline moves to the start of the next line, any other byte moves one
/// column on.
pub open spec fn line_col(b: Seq<u8>) -> (int, int)
    decreases b.len(),
{
    if b.len() == 0 {
        (0, 0)
    } else {
        let (line, col) = line_col(b.drop_last());
        if b.last() == 10u8 {
            (line + 1, 0)
        } else {
            (line, col + 1)
        }
    }
}

proof fn lemma_line_col_bounded(b: Seq<u8>)
    ensures
        0 <= line_col(b).0 <= b.len(),
        0 <= line_col(b).1 <= b.len(),
    decreases b.len(),
{
    if b.len() > 0 {
        lemma_line_col_bounded(b.drop_last());
    }
}

impl Token {
    /// The token's text, as a slice of the input string.
    pub fn text<'a>(&self, input: &'a str) -> (r: &'a str)
        requires
            span_fits(input, self.span),
        ensures
            r.spec_bytes() == input.spec_bytes().subrange(
                self.span.start as int,
                self.span.end as int,
            ),
    {
        let (head, _) = input.split_at(self.span.end);
        proof {
            let b = input.spec_bytes();
            let h = head.spec_bytes();
            let (s, e) = (self.span.start as int, self.span.end as int);
            assert(h =~= b.subrange(0, e));
            vstd::utf8::encode_utf8_valid_utf8(input@);
            vstd::utf8::valid_utf8_split(b, e);
            if s == e {
                vstd::utf8::is_char_boundary_start_end_of_seq(h);
            } else if s > 0 {
                vstd::utf8::is_char_boundary_iff_not_is_continuation_byte(b, s);
                vstd::utf8::is_char_boundary_iff_not_is_continuation_byte(h, s);
            }
            assert(is_char_boundary(h, s));
        }
        let (_, r) = head.split_at(self.span.start);
        proof {
            assert(r.spec_bytes() =~= input.spec_bytes().subrange(
                self.span.start as int,
                self.span.end as int,
            ));
        }
        r
    }
}

impl Span {
    /// The number of bytes the span covers.
    pub fn _len(&self) -> (r: usize)
        requires
            self.start <= self.end,
        ensures
            r == self.end - self.start,
    {
        self.end - self.start
    }

    /// Line and column, both 0-based, of the span's start in `input`, found by
    /// scanning the bytes before it.
    pub fn get_line_and_column(&self, input: &str) -> (r: (usize, usize))
        ensures
            ({
                let b = input.spec_bytes();
                let n = if self.start <= b.len() { self.start as int } else { b.len() as int };
                r.0 as int == line_col(b.subrange(0, n)).0 && r.1 as int == line_col(
                    b.subrange(0, n),
                ).1
            }),
    {
        let bytes = input.as_bytes();
        let n: usize = if self.start <= bytes.len() {
            self.start
        } else {
            bytes.len()
        };
        let mut line: usize = 0;
        let mut column: usize = 0;
        let mut i: usize = 0;
        while i < n
            invariant
                n <= bytes@.len(),
                bytes@ == input.spec_bytes(),
                i <= n,
                line as int == line_col(bytes@.subrange(0, i as int)).0,
                column as int == line_col(bytes@.subrange(0, i as int)).1,
            decreases n - i,
        {
            proof {
                lemma_line_col_bounded(bytes@.subrange(0, i as int));
                assert(bytes@.subrange(0, i + 1).drop_last() =~= bytes@.subrange(0, i as int));
            }
            if bytes[i] == 10u8 {
                line = line + 1;
                column = 0;
            } else {
                column = column + 1;
            }
            i = i + 1;
        }
        (line, column)
    }
}

} // verus!
