use vstd::prelude::*;
use std::rc::Rc;
use crate::ast::{Expr, Function, Literal, Stmt};
use crate::env::{bind, drop_top, empty_scope, push_top, top_value, Scope};
use crate::interpreter::{
    bind_params, call_spec, eval_spec, exec_spec, lit_val, run_spec, Machine,
};
use crate::parser::{expr_spec, infix_spec, is_terminator, kind};
use crate::token::{infix_bp, Token, TokenKind};
use crate::value::{truthy, RuntimeError, Val};

verus! {

/// `b` has as many scopes as `a`, and the first `n` of them bind the same
/// variables.
pub open spec fn vars_kept(a: Seq<Scope>, b: Seq<Scope>, n: int) -> bool {
    &&& b.len() == a.len()
    &&& forall|i: int| 0 <= i < n ==> #[trigger] b[i].vars == a[i].vars
}

/// `and` does not evaluate its right operand when the left one is false,
/// whatever that operand is: the result is `false` and only the left
/// operand's effects remain.
pub proof fn lemma_and_short_circuits(s: Seq<Scope>, lhs: Expr, rhs: Expr)
    requires
        eval_spec(s, lhs).1 matches Ok(a) && !truthy(a),
    ensures
        eval_spec(s, Expr::BinaryOp { op: TokenKind::And, lhs: Box::new(lhs), rhs: Box::new(rhs) })
            == (eval_spec(s, lhs).0, Ok::<Val, RuntimeError>(Val::Bool(false))),
{
}

/// `or` does not evaluate its right operand when the left one is true.
pub proof fn lemma_or_short_circuits(s: Seq<Scope>, lhs: Expr, rhs: Expr)
    requires
        eval_spec(s, lhs).1 matches Ok(a) && truthy(a),
    ensures
        eval_spec(s, Expr::BinaryOp { op: TokenKind::Or, lhs: Box::new(lhs), rhs: Box::new(rhs) })
            == (eval_spec(s, lhs).0, Ok::<Val, RuntimeError>(Val::Bool(true))),
{
}

/// Entering a call of a function with parameters `(x, y)` while the
/// caller's stack ends with `a, b` (`b` pushed last) binds `x` to `b` and
/// `y` to `a`, and takes both values off the caller's stack.
pub proof fn lemma_params_bind_in_pop_order(s: Seq<Scope>, params: Seq<String>, a: Val, b: Val)
    requires
        s.len() >= 1,
        params.len() == 2,
        params[0]@ != params[1]@,
        s.last().stack.len() >= 2,
        s.last().stack.last() == b,
        s.last().stack[s.last().stack.len() - 2] == a,
    ensures
        ({
            let (after, r) = bind_params(s.push(empty_scope()), params);
            let n = s.last().stack.len();
            &&& r == Ok::<(), RuntimeError>(())
            &&& after.len() == s.len() + 1
            &&& after.last().vars == map![params[0]@ => b, params[1]@ => a]
            &&& after[s.len() - 1].stack == s.last().stack.subrange(0, n - 2)
        }),
{
    let s0 = s.push(empty_scope());
    let n = s.last().stack.len();
    assert(s0.drop_last() =~= s);
    assert(top_value(s) == Ok::<Val, RuntimeError>(b));
    let s1 = bind(drop_top(s).push(s0.last()), params[0]@, b);
    let rest = params.drop_first();
    assert(bind_params(s0, params) == bind_params(s1, rest));
    assert(s1.drop_last() =~= drop_top(s));
    assert(drop_top(s).last().stack =~= s.last().stack.drop_last());
    assert(top_value(drop_top(s)) == Ok::<Val, RuntimeError>(a));
    let s2 = bind(drop_top(drop_top(s)).push(s1.last()), rest[0]@, a);
    assert(bind_params(s1, rest) == bind_params(s2, rest.drop_first()));
    assert(rest.drop_first() =~= Seq::<String>::empty());
    assert(bind_params(s2, rest.drop_first()) == (s2, Ok::<(), RuntimeError>(())));
    assert(s2.last().vars =~= map![params[0]@ => b, params[1]@ => a]);
    assert(s2[s.len() - 1].stack =~= s.last().stack.subrange(0, n - 2));
}

/// A call of a function without parameters whose body is `push <literal>`
/// leaves the literal's value on top of the caller's stack.
pub proof fn lemma_pushed_value_is_returned(m: Machine, f: Rc<Function>, l: Literal, fuel: nat)
    requires
        m.scopes.len() >= 1,
        fuel > 0,
        f.params@.len() == 0,
        f.body@.len() == 1,
        f.body@[0] == Stmt::Push(Expr::Literal(l)),
    ensures
        call_spec(m, f, fuel) == (
            Machine { scopes: push_top(m.scopes, lit_val(l)), output: m.output },
            Ok::<(), RuntimeError>(()),
        ),
{
    let s1 = m.scopes.push(empty_scope());
    let m1 = Machine { scopes: s1, output: m.output };
    let body = f.body@;
    assert(body.drop_first() =~= Seq::<Stmt>::empty());
    let s2 = push_top(s1, lit_val(l));
    let m2 = Machine { scopes: s2, output: m.output };
    assert(bind_params(s1, f.params@) == (s1, Ok::<(), RuntimeError>(())));
    assert(eval_spec(s1, Expr::Literal(l)) == (s1, Ok::<Val, RuntimeError>(lit_val(l))));
    assert(exec_spec(m1, body[0], (fuel - 1) as nat) == (m2, Ok::<(), RuntimeError>(())));
    assert(run_spec(m2, body.drop_first(), (fuel - 1) as nat) == (m2, Ok::<(), RuntimeError>(())));
    assert(run_spec(m1, body, (fuel - 1) as nat) == (
        Machine { scopes: s2, output: m.output },
        Ok::<(), RuntimeError>(()),
    ));
    assert(s2.drop_last() =~= m.scopes);
}

/// A call of a function without parameters and with an empty body leaves
/// the machine as it was.
pub proof fn lemma_empty_body_returns_nothing(m: Machine, f: Rc<Function>, fuel: nat)
    requires
        m.scopes.len() >= 1,
        fuel > 0,
        f.params@.len() == 0,
        f.body@.len() == 0,
    ensures
        call_spec(m, f, fuel) == (m, Ok::<(), RuntimeError>(())),
{
    assert(m.scopes.push(empty_scope()).drop_last() =~= m.scopes);
}

/// `pop` on an empty stack fails with the empty-stack error and changes
/// nothing.
pub proof fn lemma_pop_empty_fails(m: Machine, fuel: nat)
    requires
        m.scopes.len() >= 1,
        m.scopes.last().stack.len() == 0,
    ensures
        exec_spec(m, Stmt::Pop, fuel) == (m, Err::<(), RuntimeError>(RuntimeError::EmptyStack)),
{
}

proof fn lemma_bind_params_underflow(s: Seq<Scope>, params: Seq<String>)
    requires
        s.len() >= 2,
        params.len() > s[s.len() - 2].stack.len(),
    ensures
        bind_params(s, params).1 == Err::<(), RuntimeError>(RuntimeError::EmptyStack),
        bind_params(s, params).0.len() == s.len(),
    decreases params.len(),
{
    let caller = s.drop_last();
    if caller.last().stack.len() > 0 {
        let v = caller.last().stack.last();
        let s1 = bind(drop_top(caller).push(s.last()), params[0]@, v);
        assert(s1.drop_last() =~= drop_top(caller));
        lemma_bind_params_underflow(s1, params.drop_first());
    }
}

/// Calling a function with more parameters than values on the caller's
/// stack fails with the empty-stack error before its body runs: nothing is
/// printed and the callee's scope is gone.
pub proof fn lemma_call_underflow(m: Machine, f: Rc<Function>, fuel: nat)
    requires
        m.scopes.len() >= 1,
        fuel > 0,
        f.params@.len() > m.scopes.last().stack.len(),
    ensures
        call_spec(m, f, fuel).1 == Err::<(), RuntimeError>(RuntimeError::EmptyStack),
        call_spec(m, f, fuel).0.output == m.output,
        call_spec(m, f, fuel).0.scopes.len() == m.scopes.len(),
{
    let s0 = m.scopes.push(empty_scope());
    assert(s0[s0.len() - 2] == m.scopes.last());
    lemma_bind_params_underflow(s0, f.params@);
}

proof fn lemma_eval_keeps_vars(s: Seq<Scope>, e: Expr)
    requires
        s.len() >= 1,
    ensures
        vars_kept(s, eval_spec(s, e).0, s.len() as int),
    decreases e,
{
    match e {
        Expr::Pop => {
            if s.last().stack.len() > 0 {
                assert(vars_kept(s, drop_top(s), s.len() as int));
            }
        },
        Expr::UnaryOp { op, expr } => {
            lemma_eval_keeps_vars(s, *expr);
        },
        Expr::BinaryOp { op, lhs, rhs } => {
            lemma_eval_keeps_vars(s, *lhs);
            let s1 = eval_spec(s, *lhs).0;
            lemma_eval_keeps_vars(s1, *rhs);
        },
        _ => {},
    }
}

proof fn lemma_bind_params_keeps_vars(s: Seq<Scope>, params: Seq<String>)
    requires
        s.len() >= 2,
    ensures
        vars_kept(s, bind_params(s, params).0, s.len() - 1),
    decreases params.len(),
{
    if params.len() > 0 {
        let caller = s.drop_last();
        if caller.last().stack.len() > 0 {
            let v = caller.last().stack.last();
            let s1 = bind(drop_top(caller).push(s.last()), params[0]@, v);
            assert(vars_kept(s, s1, s.len() - 1));
            lemma_bind_params_keeps_vars(s1, params.drop_first());
        }
    }
}

proof fn lemma_exec_keeps_outer_vars(m: Machine, st: Stmt, fuel: nat)
    requires
        m.scopes.len() >= 1,
    ensures
        vars_kept(m.scopes, exec_spec(m, st, fuel).0.scopes, m.scopes.len() - 1),
    decreases fuel, 1nat, 0nat,
{
    let s = m.scopes;
    match st {
        Stmt::Assign { ident, expr } => {
            lemma_eval_keeps_vars(s, expr);
        },
        Stmt::Push(expr) => {
            lemma_eval_keeps_vars(s, expr);
        },
        Stmt::Print(expr) => {
            lemma_eval_keeps_vars(s, expr);
        },
        Stmt::FnCall(name) => {
            match crate::env::get_result(s, name) {
                Ok(Val::Func(f)) => {
                    lemma_call_keeps_caller_variables(m, f, fuel);
                },
                _ => {},
            }
        },
        _ => {},
    }
}

proof fn lemma_run_keeps_outer_vars(m: Machine, stmts: Seq<Stmt>, fuel: nat)
    requires
        m.scopes.len() >= 1,
    ensures
        vars_kept(m.scopes, run_spec(m, stmts, fuel).0.scopes, m.scopes.len() - 1),
    decreases fuel, 2nat, stmts.len(),
{
    if stmts.len() > 0 {
        lemma_exec_keeps_outer_vars(m, stmts[0], fuel);
        let (m1, r) = exec_spec(m, stmts[0], fuel);
        if r is Ok {
            lemma_run_keeps_outer_vars(m1, stmts.drop_first(), fuel);
        }
    }
}

/// A function call leaves the variables of every scope that existed before
/// it as they were: assignments and definitions in the body bind names in
/// the callee's own scope, which the call discards, so a global binding of
/// the same name is untouched.
pub proof fn lemma_call_keeps_caller_variables(m: Machine, f: Rc<Function>, fuel: nat)
    requires
        m.scopes.len() >= 1,
    ensures
        vars_kept(m.scopes, call_spec(m, f, fuel).0.scopes, m.scopes.len() as int),
    decreases fuel, 0nat, 0nat,
{
    if fuel > 0 {
        let s0 = m.scopes.push(empty_scope());
        lemma_bind_params_keeps_vars(s0, f.params@);
        let (s1, r1) = bind_params(s0, f.params@);
        if r1 is Ok {
            let m1 = Machine { scopes: s1, output: m.output };
            lemma_run_keeps_outer_vars(m1, f.body@, (fuel - 1) as nat);
        }
    }
}

/// `a op b`, as a syntax tree.
pub open spec fn binary(op: TokenKind, a: Expr, b: Expr) -> Expr {
    Expr::BinaryOp { op, lhs: Box::new(a), rhs: Box::new(b) }
}

/// Precedence and grouping: for `a op1 b op2 c` followed by a terminator,
/// with `a`, `b`, `c` names and both operators infix, `op2` takes `b` as its
/// left operand when it binds more tightly than `op1`, and otherwise `op1`
/// is applied first, so that equal operators group to the left.
pub proof fn lemma_precedence_and_grouping(
    t: Seq<Token>,
    x: Seq<String>,
    op1: TokenKind,
    op2: TokenKind,
)
    requires
        t.len() >= 5,
        x.len() == t.len(),
        t[0].kind == TokenKind::Ident,
        t[1].kind == op1,
        t[2].kind == TokenKind::Ident,
        t[3].kind == op2,
        t[4].kind == TokenKind::Ident,
        is_terminator(kind(t, 5)),
        infix_bp(op1) is Some,
        infix_bp(op2) is Some,
    ensures
        infix_bp(op2)->Some_0.0 > infix_bp(op1)->Some_0.0 ==> expr_spec(t, x, 0, 0) == Ok::<
            (Expr, int),
            crate::parser::ParseError,
        >(
            (
                binary(op1, Expr::Ident(x[0]), binary(op2, Expr::Ident(x[2]), Expr::Ident(x[4]))),
                5,
            ),
        ),
        infix_bp(op2)->Some_0.0 <= infix_bp(op1)->Some_0.0 ==> expr_spec(t, x, 0, 0) == Ok::<
            (Expr, int),
            crate::parser::ParseError,
        >(
            (
                binary(op2, binary(op1, Expr::Ident(x[0]), Expr::Ident(x[2])), Expr::Ident(x[4])),
                5,
            ),
        ),
{
    let (l1, r1) = infix_bp(op1)->Some_0;
    let (l2, r2) = infix_bp(op2)->Some_0;
    let (a, b, c) = (Expr::Ident(x[0]), Expr::Ident(x[2]), Expr::Ident(x[4]));
    assert(r1 == l1 + 1 && r2 == l2 + 1);
    assert(infix_spec(t, x, c, 5, r2 as int) == Ok::<(Expr, int), crate::parser::ParseError>((c, 5)));
    assert(expr_spec(t, x, 4, r2 as int) == Ok::<(Expr, int), crate::parser::ParseError>((c, 5)));
    assert(expr_spec(t, x, 0, 0) == infix_spec(t, x, a, 1, 0));
    assert(expr_spec(t, x, 2, r1 as int) == infix_spec(t, x, b, 3, r1 as int));
    if l2 > l1 {
        let bc = binary(op2, b, c);
        assert(infix_spec(t, x, bc, 5, r1 as int) == Ok::<(Expr, int), crate::parser::ParseError>((bc, 5)));
        assert(infix_spec(t, x, b, 3, r1 as int) == infix_spec(t, x, bc, 5, r1 as int));
        let all = binary(op1, a, bc);
        assert(infix_spec(t, x, all, 5, 0) == Ok::<(Expr, int), crate::parser::ParseError>((all, 5)));
        assert(infix_spec(t, x, a, 1, 0) == infix_spec(t, x, all, 5, 0));
    } else {
        assert(infix_spec(t, x, b, 3, r1 as int) == Ok::<(Expr, int), crate::parser::ParseError>((b, 3)));
        let ab = binary(op1, a, b);
        let all = binary(op2, ab, c);
        assert(infix_spec(t, x, all, 5, 0) == Ok::<(Expr, int), crate::parser::ParseError>((all, 5)));
        assert(infix_spec(t, x, ab, 3, 0) == infix_spec(t, x, all, 5, 0));
        assert(infix_spec(t, x, a, 1, 0) == infix_spec(t, x, ab, 3, 0));
    }
}

} // verus!
