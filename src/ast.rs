use vstd::prelude::*;
use std::rc::Rc;
use crate::number::Number;
use crate::token::TokenKind;

verus! {

/// A literal as written in the source. Integer and float literals are told
/// apart by the lexer; both already hold their numeric value.
#[derive(Clone, Debug, PartialEq)]
pub enum Literal {
    String(String),
    Float(Number),
    Int(Number),
    Bool(bool),
}

/// An expression, which evaluates to a value.
#[derive(Debug)]
pub enum Expr {
    Ident(String),
    Literal(Literal),
    BinaryOp { op: TokenKind, lhs: Box<Expr>, rhs: Box<Expr> },
    UnaryOp { op: TokenKind, expr: Box<Expr> },
    Pop,
}

/// A function definition: its name, its parameters in declaration order and
/// its body. It is shared, never copied, between the syntax tree and the
/// values that refer to it.
#[derive(Debug)]
pub struct Function {
    pub ident: String,
    pub params: Vec<String>,
    pub body: Vec<Stmt>,
}

/// A statement, which changes the interpreter's state and yields no value.
#[derive(Debug)]
pub enum Stmt {
    FnDef(Rc<Function>),
    Assign { ident: String, expr: Expr },
    Push(Expr),
    Print(Expr),
    FnCall(String),
    Pop,
}

} // verus!
