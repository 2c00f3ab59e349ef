use vstd::prelude::*;
use std::rc::Rc;
use crate::ast::{Expr, Function, Literal, Stmt};
use crate::env::{
    after_pop, bind, drop_top, empty_scope, get_result, push_top, stack_view, top_value,
    Environment, Scope,
};
use crate::token::TokenKind;
use crate::value::{
    add_result, div_result, eq_result, ge_result, gt_result, le_result, lt_result, mul_result,
    ne_result, neg_result, result_view, sub_result, truthy, wrong_type, RuntimeError, TypeName,
    Val, Value,
};

verus! {

/// How deeply function calls may nest below one top-level statement unless
/// the interpreter is built with another bound. It stands in for the host's
/// stack, which bounds recursion in practice: the bound is set high enough
/// that the stack, not the bound, is what a deep program meets first.
pub const DEFAULT_CALL_LIMIT: usize = 100_000;

/// The interpreter's state as seen in contracts: the scopes and every value
/// printed so far.
pub struct Machine {
    pub scopes: Seq<Scope>,
    pub output: Seq<Val>,
}

pub open spec fn lit_val(l: Literal) -> Val {
    match l {
        Literal::String(s) => Val::Str(s@),
        Literal::Float(n) => Val::Num(n),
        Literal::Int(n) => Val::Num(n),
        Literal::Bool(b) => Val::Bool(b),
    }
}

/// The value of a unary operator applied to `v`.
pub open spec fn unary_result(op: TokenKind, v: Val) -> Result<Val, RuntimeError> {
    match op {
        TokenKind::Minus => neg_result(v),
        TokenKind::Not => Ok(Val::Bool(!truthy(v))),
        _ => Err(RuntimeError::UnsupportedOperator { op }),
    }
}

/// The operators whose both operands are always evaluated.
pub open spec fn is_strict_binary(op: TokenKind) -> bool {
    match op {
        TokenKind::Plus | TokenKind::Minus | TokenKind::Multiply | TokenKind::Divide
        | TokenKind::Less | TokenKind::Greater | TokenKind::LessEq | TokenKind::GreaterEq
        | TokenKind::NotEq | TokenKind::Equals => true,
        _ => false,
    }
}

/// The value of a strict binary operator on `a` and `b`.
pub open spec fn binary_result(op: TokenKind, a: Val, b: Val) -> Result<Val, RuntimeError> {
    match op {
        TokenKind::Plus => add_result(a, b),
        TokenKind::Minus => sub_result(a, b),
        TokenKind::Multiply => mul_result(a, b),
        TokenKind::Divide => div_result(a, b),
        TokenKind::Less => lt_result(a, b),
        TokenKind::Greater => gt_result(a, b),
        TokenKind::LessEq => le_result(a, b),
        TokenKind::GreaterEq => ge_result(a, b),
        TokenKind::NotEq => ne_result(a, b),
        TokenKind::Equals => eq_result(a, b),
        _ => Err(RuntimeError::UnsupportedOperator { op }),
    }
}

/// Evaluates `e` in `s`: the scopes afterwards and the value or error.
/// Operands are evaluated left to right; `and` and `or` evaluate their right
/// operand only when the left one does not decide the result.
pub open spec fn eval_spec(s: Seq<Scope>, e: Expr) -> (Seq<Scope>, Result<Val, RuntimeError>)
    decreases e,
{
    match e {
        Expr::Ident(name) => (s, get_result(s, name)),
        Expr::Literal(l) => (s, Ok(lit_val(l))),
        Expr::Pop => (after_pop(s), top_value(s)),
        Expr::UnaryOp { op, expr } => {
            let (s1, r) = eval_spec(s, *expr);
            match r {
                Ok(v) => (s1, unary_result(op, v)),
                Err(err) => (s1, Err(err)),
            }
        },
        Expr::BinaryOp { op, lhs, rhs } => {
            let (s1, r1) = eval_spec(s, *lhs);
            match r1 {
                Err(err) => (s1, Err(err)),
                Ok(a) => if op == TokenKind::And || op == TokenKind::Or {
                    if (op == TokenKind::And) != truthy(a) {
                        (s1, Ok(Val::Bool(truthy(a))))
                    } else {
                        let (s2, r2) = eval_spec(s1, *rhs);
                        match r2 {
                            Ok(b) => (s2, Ok(Val::Bool(truthy(b)))),
                            Err(err) => (s2, Err(err)),
                        }
                    }
                } else if is_strict_binary(op) {
                    let (s2, r2) = eval_spec(s1, *rhs);
                    match r2 {
                        Ok(b) => (s2, binary_result(op, a, b)),
                        Err(err) => (s2, Err(err)),
                    }
                } else {
                    (s1, Err(RuntimeError::UnsupportedOperator { op }))
                },
            }
        },
    }
}

/// Binds `params` in order in the innermost scope, each to a value popped
/// from the stack of the scope just outside it (the caller's).
pub open spec fn bind_params(s: Seq<Scope>, params: Seq<String>) -> (
    Seq<Scope>,
    Result<(), RuntimeError>,
)
    decreases params.len(),
{
    if params.len() == 0 {
        (s, Ok(()))
    } else {
        let caller = s.drop_last();
        match top_value(caller) {
            Err(err) => (s, Err(err)),
            Ok(v) => bind_params(
                bind(drop_top(caller).push(s.last()), params[0]@, v),
                params.drop_first(),
            ),
        }
    }
}

/// Executes one statement; `fuel` is how deeply calls may still nest.
pub open spec fn exec_spec(m: Machine, st: Stmt, fuel: nat) -> (Machine, Result<(), RuntimeError>)
    decreases fuel, 1nat, 0nat,
{
    match st {
        Stmt::FnDef(f) => (
            Machine { scopes: bind(m.scopes, f.ident@, Val::Func(f)), output: m.output },
            Ok(()),
        ),
        Stmt::Assign { ident, expr } => {
            let (s1, r) = eval_spec(m.scopes, expr);
            match r {
                Ok(v) => (Machine { scopes: bind(s1, ident@, v), output: m.output }, Ok(())),
                Err(err) => (Machine { scopes: s1, output: m.output }, Err(err)),
            }
        },
        Stmt::Push(expr) => {
            let (s1, r) = eval_spec(m.scopes, expr);
            match r {
                Ok(v) => (Machine { scopes: push_top(s1, v), output: m.output }, Ok(())),
                Err(err) => (Machine { scopes: s1, output: m.output }, Err(err)),
            }
        },
        Stmt::Print(expr) => {
            let (s1, r) = eval_spec(m.scopes, expr);
            match r {
                Ok(v) => (Machine { scopes: s1, output: m.output.push(v) }, Ok(())),
                Err(err) => (Machine { scopes: s1, output: m.output }, Err(err)),
            }
        },
        Stmt::Pop => match top_value(m.scopes) {
            Ok(_) => (Machine { scopes: drop_top(m.scopes), output: m.output }, Ok(())),
            Err(err) => (m, Err(err)),
        },
        Stmt::FnCall(name) => match get_result(m.scopes, name) {
            Err(err) => (m, Err(err)),
            Ok(v) => match v {
                Val::Func(f) => call_spec(m, f, fuel),
                _ => (m, Err(wrong_type(TypeName::Function, v))),
            },
        },
    }
}

/// Calls `f`: enters a scope, binds the parameters from the caller's stack,
/// runs the body, and on success moves the top of the callee's stack, if any,
/// onto the caller's. The callee's scope is gone afterwards on every path.
pub open spec fn call_spec(m: Machine, f: Rc<Function>, fuel: nat) -> (
    Machine,
    Result<(), RuntimeError>,
)
    decreases fuel, 0nat, 0nat,
{
    if fuel == 0 {
        (m, Err(RuntimeError::CallDepthExceeded))
    } else {
        let (s1, r1) = bind_params(m.scopes.push(empty_scope()), f.params@);
        match r1 {
            Err(err) => (Machine { scopes: s1.drop_last(), output: m.output }, Err(err)),
            Ok(_) => {
                let (m2, r2) = run_spec(Machine { scopes: s1, output: m.output }, f.body@, (fuel - 1) as nat);
                match r2 {
                    Err(err) => (Machine { scopes: m2.scopes.drop_last(), output: m2.output }, Err(err)),
                    Ok(_) => {
                        let caller = m2.scopes.drop_last();
                        let scopes = match top_value(m2.scopes) {
                            Ok(v) => push_top(caller, v),
                            Err(_) => caller,
                        };
                        (Machine { scopes, output: m2.output }, Ok(()))
                    },
                }
            },
        }
    }
}

/// Executes statements in order, stopping at the first error.
pub open spec fn run_spec(m: Machine, stmts: Seq<Stmt>, fuel: nat) -> (
    Machine,
    Result<(), RuntimeError>,
)
    decreases fuel, 2nat, stmts.len(),
{
    if stmts.len() == 0 {
        (m, Ok(()))
    } else {
        let (m1, r) = exec_spec(m, stmts[0], fuel);
        match r {
            Err(err) => (m1, Err(err)),
            Ok(_) => run_spec(m1, stmts.drop_first(), fuel),
        }
    }
}

/// Runs statements against nested scopes, each with its own operand stack,
/// and keeps what `print` wrote.
pub struct Interpreter {
    env: Environment,
    printed: Vec<Value>,
    call_limit: usize,
}

impl View for Interpreter {
    type V = Machine;

    closed spec fn view(&self) -> Machine {
        Machine { scopes: self.env@, output: stack_view(self.printed@) }
    }
}

/// A fresh interpreter: one empty global scope, nothing printed.
pub open spec fn initial_machine() -> Machine {
    Machine { scopes: seq![empty_scope()], output: Seq::empty() }
}

fn eval_literal(literal: &Literal) -> (r: Value)
    ensures
        r@ == lit_val(*literal),
{
    match literal {
        Literal::String(s) => Value::String(s.clone()),
        Literal::Float(n) => Value::Number(*n),
        Literal::Int(n) => Value::Number(*n),
        Literal::Bool(b) => Value::Bool(*b),
    }
}

fn eval_unary_op(op: TokenKind, v: Value) -> (r: Result<Value, RuntimeError>)
    ensures
        result_view(r) == unary_result(op, v@),
{
    match op {
        TokenKind::Minus => v.negate(),
        TokenKind::Not => Ok(Value::Bool(!v.is_truthy())),
        _ => Err(RuntimeError::UnsupportedOperator { op }),
    }
}

fn eval_binary_op(op: TokenKind, lhs: Value, rhs: Value) -> (r: Result<Value, RuntimeError>)
    ensures
        result_view(r) == binary_result(op, lhs@, rhs@),
{
    match op {
        TokenKind::Plus => lhs.add(rhs),
        TokenKind::Minus => lhs.sub(rhs),
        TokenKind::Multiply => lhs.mul(rhs),
        TokenKind::Divide => lhs.div(rhs),
        TokenKind::Less => lhs.lt(rhs),
        TokenKind::Greater => lhs.gt(rhs),
        TokenKind::LessEq => lhs.le(rhs),
        TokenKind::GreaterEq => lhs.ge(rhs),
        TokenKind::NotEq => lhs.ne(rhs),
        TokenKind::Equals => lhs.eq(rhs),
        _ => Err(RuntimeError::UnsupportedOperator { op }),
    }
}

impl Interpreter {
    pub closed spec fn wf(&self) -> bool {
        self.env.wf()
    }

    /// How deeply calls may nest below one top-level statement.
    pub closed spec fn call_limit(&self) -> nat {
        self.call_limit as nat
    }

    /// A fresh interpreter whose calls may nest `DEFAULT_CALL_LIMIT` deep.
    pub fn new() -> (r: Interpreter)
        ensures
            r.wf(),
            r@ == initial_machine(),
            r.call_limit() == DEFAULT_CALL_LIMIT,
    {
        Self::with_call_limit(DEFAULT_CALL_LIMIT)
    }

    /// A fresh interpreter whose calls may nest `limit` deep below each
    /// top-level statement; a deeper call fails with `CallDepthExceeded`.
    pub fn with_call_limit(limit: usize) -> (r: Interpreter)
        ensures
            r.wf(),
            r@ == initial_machine(),
            r.call_limit() == limit,
    {
        let r = Interpreter { env: Environment::new(), printed: Vec::new(), call_limit: limit };
        assert(r@.output =~= Seq::<Val>::empty());
        r
    }

    /// Evaluates an expression in the current scope.
    pub fn eval_expr(&mut self, expr: &Expr) -> (r: Result<Value, RuntimeError>)
        requires
            old(self).wf(),
        ensures
            final(self).wf(),
            final(self).call_limit() == old(self).call_limit(),
            (final(self)@.scopes, result_view(r)) == eval_spec(old(self)@.scopes, *expr),
            final(self)@.output == old(self)@.output,
            final(self)@.scopes.len() == old(self)@.scopes.len(),
        decreases expr,
    {
        proof {
            self.env.lemma_has_global();
        }
        match expr {
            Expr::Ident(name) => self.env.get(name),
            Expr::Literal(literal) => Ok(eval_literal(literal)),
            Expr::Pop => self.env.pop(),
            Expr::UnaryOp { op, expr } => {
                let v = self.eval_expr(expr)?;
                eval_unary_op(*op, v)
            },
            Expr::BinaryOp { op, lhs, rhs } => {
                let a = self.eval_expr(lhs)?;
                let op = *op;
                if op == TokenKind::And || op == TokenKind::Or {
                    let ta = a.is_truthy();
                    if (op == TokenKind::And) != ta {
                        Ok(Value::Bool(ta))
                    } else {
                        let b = self.eval_expr(rhs)?;
                        Ok(Value::Bool(b.is_truthy()))
                    }
                } else if op == TokenKind::Plus || op == TokenKind::Minus || op == TokenKind::Multiply
                    || op == TokenKind::Divide || op == TokenKind::Less || op == TokenKind::Greater
                    || op == TokenKind::LessEq || op == TokenKind::GreaterEq || op == TokenKind::NotEq
                    || op == TokenKind::Equals {
                    let b = self.eval_expr(rhs)?;
                    eval_binary_op(op, a, b)
                } else {
                    Err(RuntimeError::UnsupportedOperator { op })
                }
            },
        }
    }

    /// Executes one top-level statement.
    pub fn eval_stmt(&mut self, stmt: &Stmt) -> (r: Result<(), RuntimeError>)
        requires
            old(self).wf(),
        ensures
            final(self).wf(),
            final(self).call_limit() == old(self).call_limit(),
            (final(self)@, r) == exec_spec(old(self)@, *stmt, old(self).call_limit()),
    {
        self.exec_stmt(stmt, self.call_limit)
    }

    fn exec_stmt(&mut self, stmt: &Stmt, fuel: usize) -> (r: Result<(), RuntimeError>)
        requires
            old(self).wf(),
        ensures
            final(self).wf(),
            final(self).call_limit() == old(self).call_limit(),
            (final(self)@, r) == exec_spec(old(self)@, *stmt, fuel as nat),
            final(self)@.scopes.len() == old(self)@.scopes.len(),
        decreases fuel, 2nat,
    {
        proof {
            self.env.lemma_has_global();
        }
        match stmt {
            Stmt::FnDef(f) => {
                self.env.set(f.ident.clone(), Value::Function(f.clone()));
                Ok(())
            },
            Stmt::Assign { ident, expr } => {
                let v = self.eval_expr(expr)?;
                self.env.set(ident.clone(), v);
                Ok(())
            },
            Stmt::Push(expr) => {
                let v = self.eval_expr(expr)?;
                self.env.push(v);
                Ok(())
            },
            Stmt::Print(expr) => {
                let v = self.eval_expr(expr)?;
                self.printed.push(v);
                assert(self@.output =~= old(self)@.output.push(v@));
                Ok(())
            },
            Stmt::FnCall(ident) => self.eval_fncall(ident, fuel),
            Stmt::Pop => {
                self.env.pop()?;
                Ok(())
            },
        }
    }

    fn eval_fncall(&mut self, ident: &String, fuel: usize) -> (r: Result<(), RuntimeError>)
        requires
            old(self).wf(),
        ensures
            final(self).wf(),
            final(self).call_limit() == old(self).call_limit(),
            (final(self)@, r) == exec_spec(old(self)@, Stmt::FnCall(*ident), fuel as nat),
            final(self)@.scopes.len() == old(self)@.scopes.len(),
        decreases fuel, 1nat,
    {
        let v = self.env.get(ident)?;
        let f = v.to_function()?;
        self.call_function(f, fuel)
    }

    fn call_function(&mut self, f: Rc<Function>, fuel: usize) -> (r: Result<(), RuntimeError>)
        requires
            old(self).wf(),
        ensures
            final(self).wf(),
            final(self).call_limit() == old(self).call_limit(),
            (final(self)@, r) == call_spec(old(self)@, f, fuel as nat),
            final(self)@.scopes.len() == old(self)@.scopes.len(),
        decreases fuel, 0nat,
    {
        proof {
            self.env.lemma_has_global();
        }
        if fuel == 0 {
            return Err(RuntimeError::CallDepthExceeded);
        }
        self.env.new_scope();
        let bound = self.bind_params(&f.params);
        if let Err(err) = bound {
            self.env.exit_scope();
            return Err(err);
        }
        let ran = self.run_body(&f.body, fuel - 1);
        if let Err(err) = ran {
            self.env.exit_scope();
            return Err(err);
        }
        let ghost ran_scopes = self@.scopes;
        let return_value = self.env.pop();
        self.env.exit_scope();
        assert(self@.scopes =~= ran_scopes.drop_last());
        if let Ok(v) = return_value {
            self.env.push(v);
        }
        Ok(())
    }

    fn bind_params(&mut self, params: &Vec<String>) -> (r: Result<(), RuntimeError>)
        requires
            old(self).wf(),
            old(self)@.scopes.len() >= 2,
        ensures
            final(self).wf(),
            final(self).call_limit() == old(self).call_limit(),
            (final(self)@.scopes, r) == bind_params(old(self)@.scopes, params@),
            final(self)@.output == old(self)@.output,
            final(self)@.scopes.len() == old(self)@.scopes.len(),
    {
        let mut i: usize = 0;
        assert(params@.skip(0) =~= params@);
        while i < params.len()
            invariant
                self.wf(),
                self.call_limit() == old(self).call_limit(),
                i <= params@.len(),
                old(self)@.scopes.len() >= 2,
                self@.scopes.len() == old(self)@.scopes.len(),
                self@.output == old(self)@.output,
                bind_params(old(self)@.scopes, params@) == bind_params(
                    self@.scopes,
                    params@.skip(i as int),
                ),
            decreases params@.len() - i,
        {
            let ghost before = self@.scopes;
            assert(params@.skip(i as int).drop_first() =~= params@.skip(i + 1));
            let v = match self.env.parent_pop() {
                Ok(v) => v,
                Err(err) => {
                    assert(self@.scopes =~= before);
                    return Err(err);
                },
            };
            self.env.set(params[i].clone(), v);
            i = i + 1;
        }
        Ok(())
    }

    fn run_body(&mut self, stmts: &Vec<Stmt>, fuel: usize) -> (r: Result<(), RuntimeError>)
        requires
            old(self).wf(),
        ensures
            final(self).wf(),
            final(self).call_limit() == old(self).call_limit(),
            (final(self)@, r) == run_spec(old(self)@, stmts@, fuel as nat),
            final(self)@.scopes.len() == old(self)@.scopes.len(),
        decreases fuel, 3nat,
    {
        let mut i: usize = 0;
        assert(stmts@.skip(0) =~= stmts@);
        while i < stmts.len()
            invariant
                self.wf(),
                self.call_limit() == old(self).call_limit(),
                i <= stmts@.len(),
                self@.scopes.len() == old(self)@.scopes.len(),
                run_spec(old(self)@, stmts@, fuel as nat) == run_spec(
                    self@,
                    stmts@.skip(i as int),
                    fuel as nat,
                ),
            decreases stmts@.len() - i,
        {
            assert(stmts@.skip(i as int).drop_first() =~= stmts@.skip(i + 1));
            self.exec_stmt(&stmts[i], fuel)?;
            i = i + 1;
        }
        Ok(())
    }

    /// Executes statements in order and stops at the first error.
    pub fn run(&mut self, stmts: &Vec<Stmt>) -> (r: Result<(), RuntimeError>)
        requires
            old(self).wf(),
        ensures
            final(self).wf(),
            final(self).call_limit() == old(self).call_limit(),
            (final(self)@, r) == run_spec(old(self)@, stmts@, old(self).call_limit()),
    {
        self.run_body(stmts, self.call_limit)
    }

    /// Executes a single statement, as an interactive session does.
    pub fn run_one(&mut self, stmt: &Stmt) -> (r: Result<(), RuntimeError>)
        requires
            old(self).wf(),
        ensures
            final(self).wf(),
            final(self).call_limit() == old(self).call_limit(),
            (final(self)@, r) == exec_spec(old(self)@, *stmt, old(self).call_limit()),
    {
        self.eval_stmt(stmt)
    }

    /// Hands out the values printed so far, oldest first, and forgets them.
    pub fn take_printed(&mut self) -> (r: Vec<Value>)
        requires
            old(self).wf(),
        ensures
            final(self).wf(),
            final(self).call_limit() == old(self).call_limit(),
            stack_view(r@) == old(self)@.output,
            final(self)@.scopes == old(self)@.scopes,
            final(self)@.output == Seq::<Val>::empty(),
    {
        let r = self.printed.split_off(0);
        assert(self@.output =~= Seq::<Val>::empty());
        r
    }

    /// The global scope's variables and operand stack.
    pub fn dump(&self) -> (r: (&Vec<(String, Value)>, &Vec<Value>))
        requires
            self.wf(),
        ensures
            crate::env::vars_map(r.0@) == self@.scopes[0].vars,
            stack_view(r.1@) == self@.scopes[0].stack,
    {
        self.env.dump()
    }
}

} // verus!
