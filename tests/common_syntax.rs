use stacc::ast::{Expr, Literal, Stmt};
use stacc::parser::{spans_fit, Expected, ParseError, Parser};
use stacc::token::{Span, Token, TokenKind};

/// Lays the texts out in a line, separated by spaces, and ends the tokens
/// with the end-of-input token.
fn lex(parts: &[(TokenKind, &str)]) -> (String, Vec<Token>) {
    let mut input = String::new();
    let mut tokens = Vec::new();
    for (kind, text) in parts {
        if !input.is_empty() {
            input.push(' ');
        }
        let start = input.len();
        input.push_str(text);
        tokens.push(Token { kind: *kind, span: Span { start, end: input.len() } });
    }
    let end = input.len();
    tokens.push(Token { kind: TokenKind::Eof, span: Span { start: end, end } });
    (input, tokens)
}

fn parser(parts: &[(TokenKind, &str)]) -> Parser {
    let (input, tokens) = lex(parts);
    assert!(spans_fit(&input, &tokens));
    Parser::new(&input, tokens)
}

fn parse_expr(parts: &[(TokenKind, &str)]) -> Result<Expr, ParseError> {
    parser(parts).expr()
}

use stacc::token::TokenKind::{
    And, Begin, Call, Colon, Divide, End, Eof, Equals, False, FloatLit, GreaterEq, Ident, IntLit,
    LeftParen, Less, Minus, Multiply, Newline, Not, NotEq, Or, Plus, Pop, Print, Push, RightParen,
    SetKeyword, StringLit, True,
};

#[test]
fn multiplication_binds_tighter_than_addition_on_the_right() {
    let e = parse_expr(&[(IntLit, "1"), (Plus, "+"), (IntLit, "2"), (Multiply, "*"), (IntLit, "3")]);
    assert_eq!(e.unwrap().to_text(), "(+ 1 (* 2 3))");
}

#[test]
fn multiplication_binds_tighter_than_addition_on_the_left() {
    let e = parse_expr(&[(IntLit, "2"), (Multiply, "*"), (IntLit, "3"), (Plus, "+"), (IntLit, "1")]);
    assert_eq!(e.unwrap().to_text(), "(+ (* 2 3) 1)");
}

#[test]
fn subtraction_groups_to_the_left() {
    let e = parse_expr(&[(IntLit, "1"), (Minus, "-"), (IntLit, "2"), (Minus, "-"), (IntLit, "3")]);
    assert_eq!(e.unwrap().to_text(), "(- (- 1 2) 3)");
}

#[test]
fn and_binds_tighter_than_or() {
    let e = parse_expr(&[(Ident, "a"), (Or, "or"), (Ident, "b"), (And, "and"), (Ident, "c")]);
    assert_eq!(e.unwrap().to_text(), "(or a (and b c))");
}

#[test]
fn comparison_sits_between_equality_and_sums() {
    let e = parse_expr(&[
        (Ident, "a"),
        (Equals, "=="),
        (Ident, "b"),
        (Less, "<"),
        (Ident, "c"),
        (Plus, "+"),
        (IntLit, "1"),
    ]);
    assert_eq!(e.unwrap().to_text(), "(== a (< b (+ c 1)))");
}

#[test]
fn prefix_operators_bind_tightest() {
    let e = parse_expr(&[(Minus, "-"), (IntLit, "1"), (Multiply, "*"), (IntLit, "2")]);
    assert_eq!(e.unwrap().to_text(), "(* (- 1) 2)");
    let e = parse_expr(&[(Not, "not"), (Ident, "a"), (And, "and"), (Ident, "b")]);
    assert_eq!(e.unwrap().to_text(), "(and (not a) b)");
}

#[test]
fn parentheses_group() {
    let e = parse_expr(&[
        (LeftParen, "("),
        (IntLit, "1"),
        (Plus, "+"),
        (IntLit, "2"),
        (RightParen, ")"),
        (Multiply, "*"),
        (IntLit, "3"),
    ]);
    assert_eq!(e.unwrap().to_text(), "(* (+ 1 2) 3)");
}

#[test]
fn unclosed_parenthesis_is_reported() {
    let e = parse_expr(&[(LeftParen, "("), (IntLit, "1"), (Newline, "\n")]);
    assert!(matches!(
        e,
        Err(ParseError::UnexpectedToken { expected: Expected::Token(RightParen), found: Newline, .. })
    ));
}

#[test]
fn pop_is_an_expression() {
    let e = parse_expr(&[(Pop, "pop"), (Plus, "+"), (IntLit, "1")]);
    assert_eq!(e.unwrap().to_text(), "(+ pop 1)");
}

#[test]
fn string_literal_loses_its_quotes() {
    let e = parse_expr(&[(StringLit, "\"hi there\"")]).unwrap();
    match e {
        Expr::Literal(Literal::String(s)) => assert_eq!(s, "hi there"),
        other => panic!("unexpected {:?}", other),
    }
}

#[test]
fn boolean_literals() {
    assert_eq!(parse_expr(&[(True, "true")]).unwrap().to_text(), "true");
    assert_eq!(parse_expr(&[(False, "false")]).unwrap().to_text(), "false");
}

#[test]
fn float_literals_have_six_decimal_places() {
    let units = |text: &str| match parse_expr(&[(FloatLit, text)]).unwrap() {
        Expr::Literal(Literal::Float(n)) => n.units,
        other => panic!("unexpected {:?}", other),
    };
    assert_eq!(units("2.5"), 2_500_000);
    assert_eq!(units(".5"), 500_000);
    assert_eq!(units("1e3"), 1_000_000_000);
    assert_eq!(units("1.5e-1"), 150_000);
    assert_eq!(units("1E+2"), 100_000_000);
    assert_eq!(units("0.1234567"), 123_456);
}

#[test]
fn integer_literal_value() {
    match parse_expr(&[(IntLit, "42")]).unwrap() {
        Expr::Literal(Literal::Int(n)) => assert_eq!(n.units, 42_000_000),
        other => panic!("unexpected {:?}", other),
    }
}

#[test]
fn malformed_float_literal_is_a_parse_error() {
    let e = parse_expr(&[(FloatLit, "1.2.3")]);
    match e {
        Err(ParseError::InvalidLiteral { kind, text, span }) => {
            assert_eq!(kind, FloatLit);
            assert_eq!(text, "1.2.3");
            assert_eq!(span, Span { start: 0, end: 5 });
        },
        other => panic!("unexpected {:?}", other),
    }
}

#[test]
fn integer_literal_out_of_range_is_a_parse_error() {
    let e = parse_expr(&[(IntLit, "9223372036855")]);
    assert!(matches!(e, Err(ParseError::InvalidLiteral { kind: IntLit, .. })));
    assert!(parse_expr(&[(IntLit, "9223372036854")]).is_ok());
}

#[test]
fn two_operands_without_operator_is_an_error() {
    let mut p = parser(&[(Push, "push"), (IntLit, "1"), (IntLit, "2"), (Newline, "\n")]);
    let r = p.parse();
    assert_eq!(
        r.err(),
        Some(ParseError::UnexpectedToken {
            expected: Expected::OperatorOrTerminator,
            found: IntLit,
            span: Span { start: 7, end: 8 },
        })
    );
}

#[test]
fn program_with_function_definition() {
    let mut p = parser(&[
        (Newline, "\n"),
        (Begin, "begin"),
        (Ident, "f"),
        (Colon, ":"),
        (Ident, "a"),
        (Ident, "b"),
        (Newline, "\n"),
        (Push, "push"),
        (Ident, "a"),
        (Newline, "\n"),
        (Print, "print"),
        (Ident, "b"),
        (Newline, "\n"),
        (End, "end"),
        (Newline, "\n"),
        (Call, "call"),
        (Ident, "f"),
        (Newline, "\n"),
    ]);
    let stmts = p.parse().unwrap();
    assert_eq!(stmts.len(), 2);
    assert_eq!(stmts[0].to_text(), "(define f (a b) (push a) (print b))");
    assert_eq!(stmts[1].to_text(), "(call f)");
    match &stmts[0] {
        Stmt::FnDef(f) => {
            assert_eq!(f.ident, "f");
            assert_eq!(f.params, vec!["a".to_string(), "b".to_string()]);
            assert_eq!(f.body.len(), 2);
            assert!(matches!(f.body[0], Stmt::Push(Expr::Ident(_))));
            assert!(matches!(f.body[1], Stmt::Print(Expr::Ident(_))));
        },
        other => panic!("unexpected {:?}", other),
    }
    assert!(matches!(&stmts[1], Stmt::FnCall(name) if name == "f"));
}

#[test]
fn call_inside_a_function_body() {
    let mut p = parser(&[
        (Begin, "begin"),
        (Ident, "g"),
        (Colon, ":"),
        (Newline, "\n"),
        (Call, "call"),
        (Ident, "f"),
        (Newline, "\n"),
        (End, "end"),
    ]);
    let stmts = p.parse().unwrap();
    match &stmts[0] {
        Stmt::FnDef(f) => assert!(matches!(&f.body[0], Stmt::FnCall(n) if n == "f")),
        other => panic!("unexpected {:?}", other),
    }
}

#[test]
fn function_body_must_end_with_end() {
    let mut p = parser(&[
        (Begin, "begin"),
        (Ident, "f"),
        (Colon, ":"),
        (Newline, "\n"),
        (Pop, "pop"),
        (Newline, "\n"),
        (IntLit, "3"),
    ]);
    assert!(matches!(
        p.parse(),
        Err(ParseError::UnexpectedToken { expected: Expected::StatementOrEnd, found: IntLit, .. })
    ));
}

#[test]
fn function_definition_needs_a_colon() {
    let mut p = parser(&[(Begin, "begin"), (Ident, "f"), (Ident, "a"), (Newline, "\n")]);
    assert!(matches!(
        p.parse(),
        Err(ParseError::UnexpectedToken { expected: Expected::Token(Colon), found: Ident, .. })
    ));
}

#[test]
fn assignment_needs_an_identifier() {
    let mut p = parser(&[(SetKeyword, "set"), (IntLit, "1"), (IntLit, "2"), (Newline, "\n")]);
    assert!(matches!(
        p.parse(),
        Err(ParseError::UnexpectedToken { expected: Expected::Identifier, found: IntLit, .. })
    ));
}

#[test]
fn statement_cannot_start_with_a_literal() {
    let mut p = parser(&[(IntLit, "1"), (Newline, "\n")]);
    assert!(matches!(
        p.parse(),
        Err(ParseError::UnexpectedToken { expected: Expected::Statement, found: IntLit, .. })
    ));
}

#[test]
fn end_of_input_inside_a_statement_ends_the_program() {
    let mut p = parser(&[
        (SetKeyword, "set"),
        (Ident, "x"),
        (IntLit, "1"),
        (Newline, "\n"),
        (Push, "push"),
        (IntLit, "1"),
        (Plus, "+"),
    ]);
    let stmts = p.parse().unwrap();
    assert_eq!(stmts.len(), 1);
    assert!(matches!(&stmts[0], Stmt::Assign { ident, .. } if ident == "x"));
}

#[test]
fn empty_input_is_an_empty_program() {
    let mut p = parser(&[]);
    assert_eq!(p.parse().unwrap().len(), 0);
}

#[test]
fn single_statement_reports_end_of_input() {
    let mut p = parser(&[(Newline, "\n")]);
    assert_eq!(p.parse_stmt().err(), Some(ParseError::UnexpectedEof));
}

#[test]
fn peek_consume_and_next_token() {
    let mut p = parser(&[(Pop, "pop"), (Newline, "\n")]);
    assert_eq!(p.peek(), Pop);
    assert!(p.at(Pop));
    assert!(p.consume(Newline).is_err());
    assert_eq!(p.next_token().map(|t| t.kind), Some(Pop));
    assert!(p.consume(Newline).is_ok());
    assert!(p.consume(Eof).is_ok());
    assert!(p.consume(Eof).is_ok());
    assert_eq!(p.consume(Newline).err().map(|e| matches!(e, ParseError::UnexpectedToken { found: Eof, .. })), Some(true));
    assert_eq!(p.next_token(), None);
    assert_eq!(p.peek(), Eof);
}

#[test]
fn token_text_is_its_span() {
    let t = Token { kind: Ident, span: Span { start: 2, end: 4 } };
    assert_eq!(t.text("abcdef"), "cd");
}

#[test]
fn spans_outside_the_input_do_not_fit() {
    let tokens = vec![Token { kind: Ident, span: Span { start: 2, end: 9 } }];
    assert!(!spans_fit("abc", &tokens));
}

#[test]
fn line_and_column_of_a_span() {
    let input = "ab\ncd";
    assert_eq!(Span { start: 0, end: 1 }.get_line_and_column(input), (0, 0));
    assert_eq!(Span { start: 1, end: 2 }.get_line_and_column(input), (0, 1));
    assert_eq!(Span { start: 3, end: 4 }.get_line_and_column(input), (1, 0));
    assert_eq!(Span { start: 4, end: 5 }.get_line_and_column(input), (1, 1));
    assert_eq!(Span { start: 99, end: 99 }.get_line_and_column(input), (1, 2));
    assert_eq!(Span { start: 2, end: 3 }.get_line_and_column("abc"), (0, 2));
}

#[test]
fn binding_power_table() {
    assert_eq!(Or.infix_binding_power(), Some((1, 2)));
    assert_eq!(And.infix_binding_power(), Some((3, 4)));
    assert_eq!(NotEq.infix_binding_power(), Some((5, 6)));
    assert_eq!(GreaterEq.infix_binding_power(), Some((7, 8)));
    assert_eq!(Minus.infix_binding_power(), Some((9, 10)));
    assert_eq!(Divide.infix_binding_power(), Some((11, 12)));
    assert_eq!(Not.infix_binding_power(), None);
    assert_eq!(Minus.prefix_binding_power(), Some(51));
    assert_eq!(Not.prefix_binding_power(), Some(101));
    assert_eq!(Plus.prefix_binding_power(), None);
}

#[test]
fn expression_text_in_prefix_form() {
    let e = parse_expr(&[
        (Not, "not"),
        (StringLit, "\"a b\""),
        (Or, "or"),
        (FloatLit, "2.5"),
        (NotEq, "!="),
        (Pop, "pop"),
    ]);
    assert_eq!(e.unwrap().to_text(), "(or (not a b) (!= 2.5 pop))");
}

#[test]
fn span_length() {
    assert_eq!(Span { start: 3, end: 7 }._len(), 4);
    assert_eq!(Span { start: 5, end: 5 }._len(), 0);
}

#[test]
fn statement_text_in_prefix_form() {
    let mut p = parser(&[
        (SetKeyword, "set"),
        (Ident, "x"),
        (IntLit, "1"),
        (Plus, "+"),
        (Ident, "y"),
        (Newline, "\n"),
        (Pop, "pop"),
        (Newline, "\n"),
        (Begin, "begin"),
        (Ident, "g"),
        (Colon, ":"),
        (Newline, "\n"),
        (Pop, "pop"),
        (Newline, "\n"),
        (End, "end"),
    ]);
    let texts: Vec<String> = p.parse().unwrap().iter().map(|s| s.to_text()).collect();
    assert_eq!(texts, vec!["(set x (+ 1 y))", "pop", "(define g () pop)"]);
}
