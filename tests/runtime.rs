use std::rc::Rc;
use stacc::ast::{Expr, Function, Literal, Stmt};
use stacc::env::Environment;
use stacc::interpreter::Interpreter;
use stacc::literal::{parse_float, parse_int};
use stacc::number::Number;
use stacc::token::TokenKind;
use stacc::value::{Operation, RuntimeError, TypeName, Value};

fn num(n: i64) -> Expr {
    Expr::Literal(Literal::Int(Number::from_int(n).unwrap()))
}

fn units(u: i64) -> Expr {
    Expr::Literal(Literal::Float(Number { units: u }))
}

fn text(s: &str) -> Expr {
    Expr::Literal(Literal::String(s.to_string()))
}

fn boolean(b: bool) -> Expr {
    Expr::Literal(Literal::Bool(b))
}

fn ident(s: &str) -> Expr {
    Expr::Ident(s.to_string())
}

fn bin(op: TokenKind, lhs: Expr, rhs: Expr) -> Expr {
    Expr::BinaryOp { op, lhs: Box::new(lhs), rhs: Box::new(rhs) }
}

fn un(op: TokenKind, e: Expr) -> Expr {
    Expr::UnaryOp { op, expr: Box::new(e) }
}

fn def(name: &str, params: &[&str], body: Vec<Stmt>) -> Stmt {
    Stmt::FnDef(Rc::new(Function {
        ident: name.to_string(),
        params: params.iter().map(|p| p.to_string()).collect(),
        body,
    }))
}

fn set(name: &str, e: Expr) -> Stmt {
    Stmt::Assign { ident: name.to_string(), expr: e }
}

fn call(name: &str) -> Stmt {
    Stmt::FnCall(name.to_string())
}

fn eval(e: Expr) -> Result<Value, RuntimeError> {
    Interpreter::new().eval_expr(&e)
}

fn number_of(v: Value) -> i64 {
    match v {
        Value::Number(n) => n.units,
        other => panic!("not a number: {:?}", other),
    }
}

fn bool_of(v: Value) -> bool {
    match v {
        Value::Bool(b) => b,
        other => panic!("not a boolean: {:?}", other),
    }
}

fn string_of(v: Value) -> String {
    match v {
        Value::String(s) => s,
        other => panic!("not a string: {:?}", other),
    }
}

fn global_stack(i: &Interpreter) -> Vec<i64> {
    i.dump().1.iter().map(|v| number_of(v.copy())).collect()
}

fn global(i: &Interpreter, name: &str) -> Option<Value> {
    i.dump().0.iter().find(|(n, _)| n == name).map(|(_, v)| v.copy())
}

#[test]
fn false_and_skips_the_right_operand() {
    let e = bin(TokenKind::And, boolean(false), ident("nowhere"));
    assert!(!bool_of(eval(e).unwrap()));
}

#[test]
fn true_or_skips_the_right_operand() {
    let e = bin(TokenKind::Or, boolean(true), un(TokenKind::Minus, text("x")));
    assert!(bool_of(eval(e).unwrap()));
}

#[test]
fn true_and_evaluates_the_right_operand() {
    let e = bin(TokenKind::And, boolean(true), ident("nowhere"));
    assert_eq!(eval(e).err(), Some(RuntimeError::UndefinedValue { ident: "nowhere".to_string() }));
}

#[test]
fn short_circuit_does_not_pop() {
    let mut i = Interpreter::new();
    i.run(&vec![Stmt::Push(num(7)), Stmt::Push(bin(TokenKind::And, boolean(false), Expr::Pop))]).unwrap();
    let stack = i.dump().1;
    assert_eq!(stack.len(), 2);
    assert_eq!(number_of(stack[0].copy()), 7_000_000);
    assert!(!bool_of(stack[1].copy()));
}

#[test]
fn parameters_are_popped_from_the_caller_in_declaration_order() {
    let mut i = Interpreter::new();
    let prog = vec![
        def("f", &["first", "second"], vec![Stmt::Print(ident("first")), Stmt::Print(ident("second"))]),
        Stmt::Push(num(1)),
        Stmt::Push(num(2)),
        call("f"),
    ];
    i.run(&prog).unwrap();
    let printed: Vec<i64> = i.take_printed().into_iter().map(number_of).collect();
    assert_eq!(printed, vec![2_000_000, 1_000_000]);
    assert!(global_stack(&i).is_empty());
}

#[test]
fn pushed_value_is_returned_to_the_caller() {
    let mut i = Interpreter::new();
    i.run(&vec![def("f", &[], vec![Stmt::Push(num(42))]), call("f")]).unwrap();
    assert_eq!(global_stack(&i), vec![42_000_000]);
}

#[test]
fn only_the_top_value_is_returned() {
    let mut i = Interpreter::new();
    i.run(&vec![def("f", &[], vec![Stmt::Push(num(1)), Stmt::Push(num(2))]), call("f")]).unwrap();
    assert_eq!(global_stack(&i), vec![2_000_000]);
}

#[test]
fn empty_body_returns_nothing() {
    let mut i = Interpreter::new();
    i.run(&vec![Stmt::Push(num(5)), def("f", &[], vec![]), call("f")]).unwrap();
    assert_eq!(global_stack(&i), vec![5_000_000]);
}

#[test]
fn pop_on_empty_stack_fails() {
    let mut i = Interpreter::new();
    assert_eq!(i.run_one(&Stmt::Pop), Err(RuntimeError::EmptyStack));
    assert_eq!(eval(Expr::Pop).err(), Some(RuntimeError::EmptyStack));
}

#[test]
fn too_few_arguments_fail_before_the_body_runs() {
    let mut i = Interpreter::new();
    let prog = vec![
        def("f", &["a", "b"], vec![Stmt::Print(num(1))]),
        Stmt::Push(num(3)),
        call("f"),
    ];
    assert_eq!(i.run(&prog), Err(RuntimeError::EmptyStack));
    assert!(i.take_printed().is_empty());
    i.run_one(&set("after", num(1))).unwrap();
    assert!(global(&i, "after").is_some());
}

#[test]
fn failed_call_leaves_the_global_scope_current() {
    let mut i = Interpreter::new();
    let prog = vec![def("f", &[], vec![set("inner", num(1)), Stmt::Pop]), call("f")];
    assert_eq!(i.run(&prog), Err(RuntimeError::EmptyStack));
    i.run_one(&set("x", num(2))).unwrap();
    assert!(global(&i, "x").is_some());
    assert!(global(&i, "inner").is_none());
}

#[test]
fn zero_is_the_only_truthy_number() {
    assert!(!bool_of(eval(un(TokenKind::Not, num(0))).unwrap()));
    assert!(bool_of(eval(un(TokenKind::Not, num(5))).unwrap()));
    assert!(bool_of(eval(un(TokenKind::Not, units(1))).unwrap()));
    assert!(bool_of(eval(bin(TokenKind::And, num(0), num(0))).unwrap()));
    assert!(!bool_of(eval(bin(TokenKind::Or, num(1), num(2))).unwrap()));
}

#[test]
fn not_empty_string_is_true() {
    assert!(bool_of(eval(un(TokenKind::Not, text(""))).unwrap()));
}

#[test]
fn not_nonempty_string_is_false() {
    assert!(!bool_of(eval(un(TokenKind::Not, text("x"))).unwrap()));
}

#[test]
fn function_truthiness_follows_its_body() {
    let mut i = Interpreter::new();
    i.run(&vec![def("e", &[], vec![]), def("f", &[], vec![Stmt::Pop])]).unwrap();
    assert!(bool_of(i.eval_expr(&un(TokenKind::Not, ident("e"))).unwrap()));
    assert!(!bool_of(i.eval_expr(&un(TokenKind::Not, ident("f"))).unwrap()));
}

#[test]
fn string_subtraction_is_refused() {
    assert_eq!(
        eval(bin(TokenKind::Minus, text("a"), text("b"))).err(),
        Some(RuntimeError::CannotPerformOnType { op: Operation::Subtraction, typ: TypeName::String })
    );
}

#[test]
fn boolean_addition_is_refused() {
    assert_eq!(
        eval(bin(TokenKind::Plus, boolean(true), num(1))).err(),
        Some(RuntimeError::CannotPerformOnType { op: Operation::Addition, typ: TypeName::Boolean })
    );
}

#[test]
fn string_times_string_is_refused() {
    assert_eq!(
        eval(bin(TokenKind::Multiply, text("ab"), text("cd"))).err(),
        Some(RuntimeError::CannotPerformOnTypeWith {
            op: Operation::Multiplication,
            typ: TypeName::String,
            with: TypeName::String,
        })
    );
}

#[test]
fn string_times_number_repeats() {
    assert_eq!(string_of(eval(bin(TokenKind::Multiply, text("ab"), num(3))).unwrap()), "ababab");
    assert_eq!(string_of(eval(bin(TokenKind::Multiply, text("ab"), units(2_900_000))).unwrap()), "abab");
    assert_eq!(string_of(eval(bin(TokenKind::Multiply, text("ab"), num(-2))).unwrap()), "");
}

#[test]
fn string_concatenation() {
    assert_eq!(string_of(eval(bin(TokenKind::Plus, text("ab"), text("cd"))).unwrap()), "abcd");
    assert_eq!(
        eval(bin(TokenKind::Plus, text("ab"), num(1))).err(),
        Some(RuntimeError::WrongType { expected: TypeName::String, got: TypeName::Number })
    );
}

#[test]
fn assignment_in_a_function_keeps_the_global_binding() {
    let mut i = Interpreter::new();
    let prog = vec![set("x", num(1)), def("f", &[], vec![set("x", num(2))]), call("f")];
    i.run(&prog).unwrap();
    assert_eq!(number_of(global(&i, "x").unwrap()), 1_000_000);
}

#[test]
fn function_reads_globals() {
    let mut i = Interpreter::new();
    let prog = vec![set("g", num(4)), def("f", &[], vec![Stmt::Push(ident("g"))]), call("f")];
    i.run(&prog).unwrap();
    assert_eq!(global_stack(&i), vec![4_000_000]);
}

#[test]
fn arithmetic_results() {
    assert_eq!(number_of(eval(bin(TokenKind::Divide, num(7), num(2))).unwrap()), 3_500_000);
    assert_eq!(number_of(eval(bin(TokenKind::Divide, num(1), num(3))).unwrap()), 333_333);
    assert_eq!(number_of(eval(bin(TokenKind::Divide, num(-1), num(3))).unwrap()), -333_333);
    assert_eq!(number_of(eval(bin(TokenKind::Multiply, units(2_500_000), units(2_500_000))).unwrap()), 6_250_000);
    assert_eq!(number_of(eval(bin(TokenKind::Minus, num(2), num(5))).unwrap()), -3_000_000);
    assert_eq!(number_of(eval(un(TokenKind::Minus, num(5))).unwrap()), -5_000_000);
    assert_eq!(number_of(eval(bin(TokenKind::Multiply, units(-1), units(500_000))).unwrap()), 0);
}

#[test]
fn division_by_zero_is_an_error() {
    assert_eq!(eval(bin(TokenKind::Divide, num(1), num(0))).err(), Some(RuntimeError::DivisionByZero));
}

#[test]
fn overflow_is_an_error() {
    let big = units(i64::MAX);
    assert_eq!(
        eval(bin(TokenKind::Plus, big, units(1))).err(),
        Some(RuntimeError::OutOfRange { op: Operation::Addition })
    );
    assert_eq!(
        eval(bin(TokenKind::Multiply, num(9_000_000), num(9_000_000))).err(),
        Some(RuntimeError::OutOfRange { op: Operation::Multiplication })
    );
}

#[test]
fn comparisons() {
    assert!(bool_of(eval(bin(TokenKind::Less, text("abc"), text("abd"))).unwrap()));
    assert!(bool_of(eval(bin(TokenKind::Less, text("ab"), text("abc"))).unwrap()));
    assert!(!bool_of(eval(bin(TokenKind::Greater, text("ab"), text("ab"))).unwrap()));
    assert!(bool_of(eval(bin(TokenKind::GreaterEq, text("b"), text("abc"))).unwrap()));
    assert!(bool_of(eval(bin(TokenKind::LessEq, num(2), num(2))).unwrap()));
    assert!(bool_of(eval(bin(TokenKind::Greater, num(3), num(2))).unwrap()));
    assert!(bool_of(eval(bin(TokenKind::Equals, text("a"), text("a"))).unwrap()));
    assert!(bool_of(eval(bin(TokenKind::NotEq, num(1), num(2))).unwrap()));
    assert!(!bool_of(eval(bin(TokenKind::GreaterEq, num(1), num(2))).unwrap()));
}

#[test]
fn comparing_across_types_is_an_error() {
    assert_eq!(
        eval(bin(TokenKind::Less, num(1), text("a"))).err(),
        Some(RuntimeError::WrongType { expected: TypeName::Number, got: TypeName::String })
    );
    assert_eq!(
        eval(bin(TokenKind::Equals, boolean(true), boolean(true))).err(),
        Some(RuntimeError::CannotCompare { typ: TypeName::Boolean })
    );
}

#[test]
fn negating_a_string_is_an_error() {
    assert_eq!(
        eval(un(TokenKind::Minus, text("a"))).err(),
        Some(RuntimeError::WrongType { expected: TypeName::Number, got: TypeName::String })
    );
}

#[test]
fn calling_a_number_is_an_error() {
    let mut i = Interpreter::new();
    assert_eq!(
        i.run(&vec![set("n", num(1)), call("n")]),
        Err(RuntimeError::WrongType { expected: TypeName::Function, got: TypeName::Number })
    );
    assert_eq!(i.run_one(&call("m")), Err(RuntimeError::UndefinedValue { ident: "m".to_string() }));
}

#[test]
fn endless_recursion_stops_with_an_error() {
    let mut i = Interpreter::with_call_limit(64);
    let prog = vec![def("f", &[], vec![call("f")]), call("f")];
    assert_eq!(i.run(&prog), Err(RuntimeError::CallDepthExceeded));
    i.run_one(&set("x", num(1))).unwrap();
    assert!(global(&i, "x").is_some());
}

#[test]
fn call_limit_bounds_nesting_exactly() {
    let prog = vec![
        def("c", &[], vec![Stmt::Push(num(3))]),
        def("b", &[], vec![call("c")]),
        def("a", &[], vec![call("b")]),
    ];
    let mut two = Interpreter::with_call_limit(2);
    two.run(&prog).unwrap();
    assert_eq!(two.run_one(&call("b")), Ok(()));
    assert_eq!(two.run_one(&call("a")), Err(RuntimeError::CallDepthExceeded));
    let mut three = Interpreter::with_call_limit(3);
    three.run(&prog).unwrap();
    assert_eq!(three.run_one(&call("a")), Ok(()));
    assert_eq!(global_stack(&three), vec![3_000_000]);
}

#[test]
fn three_hundred_nested_calls_run_by_default() {
    let mut prog = vec![def("f300", &[], vec![Stmt::Push(num(1))])];
    for k in (0..300).rev() {
        prog.push(def(&format!("f{}", k), &[], vec![call(&format!("f{}", k + 1))]));
    }
    prog.push(call("f0"));
    let mut i = Interpreter::new();
    i.run(&prog).unwrap();
    assert_eq!(global_stack(&i), vec![1_000_000]);
}

#[test]
fn unknown_operator_is_an_error() {
    assert_eq!(
        eval(un(TokenKind::Plus, num(1))).err(),
        Some(RuntimeError::UnsupportedOperator { op: TokenKind::Plus })
    );
    assert_eq!(
        eval(bin(TokenKind::Colon, num(1), num(1))).err(),
        Some(RuntimeError::UnsupportedOperator { op: TokenKind::Colon })
    );
}

#[test]
fn print_keeps_values_in_order() {
    let mut i = Interpreter::new();
    i.run(&vec![Stmt::Print(num(1)), Stmt::Print(text("two"))]).unwrap();
    let out = i.take_printed();
    assert_eq!(out.len(), 2);
    assert_eq!(string_of(out[1].copy()), "two");
    assert!(i.take_printed().is_empty());
}

#[test]
fn scopes_shadow_and_pop_from_the_parent() {
    let mut env = Environment::new();
    env.set("a".to_string(), Value::Bool(true));
    env.push(Value::Bool(false));
    env.new_scope();
    assert_eq!(env.depth(), 1);
    assert!(bool_of(env.get(&"a".to_string()).unwrap()));
    env.set("a".to_string(), Value::Bool(false));
    assert!(!bool_of(env.get(&"a".to_string()).unwrap()));
    assert_eq!(env.pop().err(), Some(RuntimeError::EmptyStack));
    assert!(!bool_of(env.parent_pop().unwrap()));
    assert_eq!(env.parent_pop().err(), Some(RuntimeError::EmptyStack));
    env.exit_scope();
    assert_eq!(env.depth(), 0);
    assert!(bool_of(env.get(&"a".to_string()).unwrap()));
    assert_eq!(env.dump().0.len(), 1);
    assert_eq!(
        env.get(&"b".to_string()).err(),
        Some(RuntimeError::UndefinedValue { ident: "b".to_string() })
    );
}

#[test]
fn rebinding_replaces_the_value() {
    let mut env = Environment::new();
    env.set("a".to_string(), Value::Bool(true));
    env.set("a".to_string(), Value::Bool(false));
    assert_eq!(env.dump().0.len(), 1);
    assert!(!bool_of(env.get(&"a".to_string()).unwrap()));
}

#[test]
fn value_type_names() {
    assert_eq!(Value::Bool(true).value_type(), TypeName::Boolean);
    assert_eq!(TypeName::Function.name(), "function");
    assert_eq!(TypeName::Number.name(), "number");
    assert_eq!(Value::String("s".to_string()).to_str().unwrap(), "s");
    assert!(Value::Number(Number { units: 0 }).to_function().is_err());
}

#[test]
fn literal_texts() {
    assert_eq!(parse_int(b"12"), Some(Number { units: 12_000_000 }));
    assert_eq!(parse_int(b"1a"), None);
    assert_eq!(parse_int(b""), None);
    assert_eq!(parse_float(b"3.25"), Some(Number { units: 3_250_000 }));
    assert_eq!(parse_float(b"5."), None);
    assert_eq!(parse_float(b"1e"), None);
    assert_eq!(parse_float(b"1e-7"), Some(Number { units: 0 }));
    assert_eq!(parse_float(b"1e13"), None);
    assert_eq!(parse_float(b"9e12"), Some(Number { units: 9_000_000_000_000_000_000 }));
}

#[test]
fn number_operations() {
    let a = Number { units: 1_500_000 };
    let b = Number { units: -2_000_000 };
    assert_eq!(a.checked_add(b), Some(Number { units: -500_000 }));
    assert_eq!(a.checked_sub(b), Some(Number { units: 3_500_000 }));
    assert_eq!(a.checked_mul(b), Some(Number { units: -3_000_000 }));
    assert_eq!(a.checked_div(b), Some(Number { units: -750_000 }));
    assert_eq!(b.checked_neg(), Some(Number { units: 2_000_000 }));
    assert_eq!(Number { units: i64::MIN }.checked_neg(), None);
    assert_eq!(a.repeat_count(), 1);
    assert_eq!(b.repeat_count(), 0);
    assert!(Number { units: 0 }.is_zero());
    assert_eq!(Number::from_int(i64::MAX), None);
}

#[test]
fn numbers_display_in_decimal_form() {
    let shown = |u: i64| Value::Number(Number { units: u }).display();
    assert_eq!(shown(42_000_000), "42");
    assert_eq!(shown(0), "0");
    assert_eq!(shown(3_500_000), "3.5");
    assert_eq!(shown(-250_000), "-0.25");
    assert_eq!(shown(1), "0.000001");
    assert_eq!(shown(1_100_000), "1.1");
    assert_eq!(shown(i64::MIN), "-9223372036854.775808");
}

#[test]
fn other_values_display() {
    assert_eq!(Value::Bool(true).display(), "true");
    assert_eq!(Value::Bool(false).display(), "false");
    assert_eq!(Value::String("a b".to_string()).display(), "a b");
    let f = Function { ident: "f".to_string(), params: vec!["a".to_string(), "b".to_string()], body: vec![] };
    assert_eq!(Value::Function(Rc::new(f)).display(), "<function f(a, b)>");
    let g = Function { ident: "g".to_string(), params: vec![], body: vec![] };
    assert_eq!(Value::Function(Rc::new(g)).display(), "<function g()>");
}
