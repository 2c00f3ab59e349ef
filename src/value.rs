use vstd::prelude::*;
use std::rc::Rc;
use vstd::string::StringSliceAdditionalSpecFns;
use vstd::string::StringExecFns;
use vstd::utf8::encode_utf8;
use crate::ast::Function;
use crate::token::TokenKind;
use crate::number::{Number, checked, trunc_div, whole_count, SCALE};

verus! {

/// The runtime type of a value, as named in error reports.
#[derive(Clone, Copy, PartialEq, Eq, Debug, Structural)]
pub enum TypeName {
    Function,
    String,
    Number,
    Boolean,
}

/// An operation that can be refused for the type of its operand.
#[derive(Clone, Copy, PartialEq, Eq, Debug, Structural)]
pub enum Operation {
    Addition,
    Subtraction,
    Multiplication,
    Division,
    Negation,
}

/// What can go wrong while a program runs.
#[derive(Clone, Debug, PartialEq)]
pub enum RuntimeError {
    /// A value of type `got` stood where one of type `expected` was needed.
    WrongType { expected: TypeName, got: TypeName },
    /// The name is bound in no scope.
    UndefinedValue { ident: String },
    /// The operation is not defined on a left operand of this type.
    CannotPerformOnType { op: Operation, typ: TypeName },
    /// The operation is not defined between these two types.
    CannotPerformOnTypeWith { op: Operation, typ: TypeName, with: TypeName },
    /// Values of this type cannot be compared.
    CannotCompare { typ: TypeName },
    /// A pop found the stack empty.
    EmptyStack,
    /// The result of the operation lies outside the range of numbers.
    OutOfRange { op: Operation },
    /// A number was divided by zero.
    DivisionByZero,
    /// Function calls were nested deeper than the interpreter allows.
    CallDepthExceeded,
    /// The syntax tree applies a token that is no operator of that arity.
    UnsupportedOperator { op: TokenKind },
}

/// A runtime value.
#[derive(Clone, Debug)]
pub enum Value {
    Function(Rc<Function>),
    String(String),
    Number(Number),
    Bool(bool),
}

/// What a value is, with a string seen as its characters.
pub enum Val {
    Func(Rc<Function>),
    Str(Seq<char>),
    Num(Number),
    Bool(bool),
}

impl View for Value {
    type V = Val;

    open spec fn view(&self) -> Val {
        match self {
            Value::Function(f) => Val::Func(*f),
            Value::String(s) => Val::Str(s@),
            Value::Number(n) => Val::Num(*n),
            Value::Bool(b) => Val::Bool(*b),
        }
    }
}

pub open spec fn type_of(v: Val) -> TypeName {
    match v {
        Val::Func(_) => TypeName::Function,
        Val::Str(_) => TypeName::String,
        Val::Num(_) => TypeName::Number,
        Val::Bool(_) => TypeName::Boolean,
    }
}

/// A result with its value seen through the view.
pub open spec fn result_view(r: Result<Value, RuntimeError>) -> Result<Val, RuntimeError> {
    match r {
        Ok(v) => Ok(v@),
        Err(e) => Err(e),
    }
}

/// Truthiness: a function is true when its body is not empty, a string when
/// it is not empty, a boolean is itself, and a number is true exactly when it
/// is zero.
pub open spec fn truthy(v: Val) -> bool {
    match v {
        Val::Func(f) => f.body@.len() > 0,
        Val::Str(s) => s.len() > 0,
        Val::Num(n) => n.units == 0,
        Val::Bool(b) => b,
    }
}

/// `s` written `n` times in a row.
pub open spec fn repeat(s: Seq<char>, n: nat) -> Seq<char>
    decreases n,
{
    if n == 0 {
        Seq::empty()
    } else {
        repeat(s, (n - 1) as nat) + s
    }
}

/// Lexicographic order on byte strings: a proper prefix comes first.
pub open spec fn bytes_lt(a: Seq<u8>, b: Seq<u8>) -> bool
    decreases a.len(),
{
    if a.len() == 0 {
        b.len() > 0
    } else if b.len() == 0 {
        false
    } else if a[0] != b[0] {
        a[0] < b[0]
    } else {
        bytes_lt(a.drop_first(), b.drop_first())
    }
}

/// A numeric result, or the out-of-range error of `op`.
pub open spec fn num_result(r: Option<Number>, op: Operation) -> Result<Val, RuntimeError> {
    match r {
        Some(n) => Ok(Val::Num(n)),
        None => Err(RuntimeError::OutOfRange { op }),
    }
}

pub open spec fn wrong_type(expected: TypeName, got: Val) -> RuntimeError {
    RuntimeError::WrongType { expected, got: type_of(got) }
}

/// `a + b`: numbers add, strings concatenate.
pub open spec fn add_result(a: Val, b: Val) -> Result<Val, RuntimeError> {
    let op = Operation::Addition;
    match a {
        Val::Str(x) => match b {
            Val::Str(y) => Ok(Val::Str(x + y)),
            _ => Err(wrong_type(TypeName::String, b)),
        },
        Val::Num(x) => match b {
            Val::Num(y) => num_result(checked(x.units + y.units), op),
            _ => Err(wrong_type(TypeName::Number, b)),
        },
        _ => Err(RuntimeError::CannotPerformOnType { op, typ: type_of(a) }),
    }
}

/// `a - b`, on numbers only.
pub open spec fn sub_result(a: Val, b: Val) -> Result<Val, RuntimeError> {
    let op = Operation::Subtraction;
    match a {
        Val::Num(x) => match b {
            Val::Num(y) => num_result(checked(x.units - y.units), op),
            _ => Err(wrong_type(TypeName::Number, b)),
        },
        _ => Err(RuntimeError::CannotPerformOnType { op, typ: type_of(a) }),
    }
}

/// `a * b`: numbers multiply, and a string times a number is the string
/// repeated as many times as the number's whole part (none if negative).
pub open spec fn mul_result(a: Val, b: Val) -> Result<Val, RuntimeError> {
    let op = Operation::Multiplication;
    match a {
        Val::Str(x) => match b {
            Val::Num(n) => Ok(Val::Str(repeat(x, whole_count(n) as nat))),
            _ => Err(RuntimeError::CannotPerformOnTypeWith { op, typ: TypeName::String, with: type_of(b) }),
        },
        Val::Num(x) => match b {
            Val::Num(y) => num_result(checked(trunc_div(x.units * y.units, SCALE as int)), op),
            _ => Err(wrong_type(TypeName::Number, b)),
        },
        _ => Err(RuntimeError::CannotPerformOnType { op, typ: type_of(a) }),
    }
}

/// `a / b`, on numbers only; a zero divisor is an error.
pub open spec fn div_result(a: Val, b: Val) -> Result<Val, RuntimeError> {
    let op = Operation::Division;
    match a {
        Val::Num(x) => match b {
            Val::Num(y) => if y.units == 0 {
                Err(RuntimeError::DivisionByZero)
            } else {
                num_result(checked(trunc_div(x.units * SCALE, y.units as int)), op)
            },
            _ => Err(wrong_type(TypeName::Number, b)),
        },
        _ => Err(RuntimeError::CannotPerformOnType { op, typ: type_of(a) }),
    }
}

/// `-a`, on numbers only.
pub open spec fn neg_result(a: Val) -> Result<Val, RuntimeError> {
    match a {
        Val::Num(x) => num_result(checked(-x.units), Operation::Negation),
        _ => Err(wrong_type(TypeName::Number, a)),
    }
}

/// Whether `a` is below `b`, and whether they are equal: numbers by value,
/// strings by their UTF-8 bytes in lexicographic order.
pub open spec fn order(a: Val, b: Val) -> Result<(bool, bool), RuntimeError> {
    match a {
        Val::Str(x) => match b {
            Val::Str(y) => Ok((bytes_lt(encode_utf8(x), encode_utf8(y)), x == y)),
            _ => Err(wrong_type(TypeName::String, b)),
        },
        Val::Num(x) => match b {
            Val::Num(y) => Ok((x.units < y.units, x.units == y.units)),
            _ => Err(wrong_type(TypeName::Number, b)),
        },
        _ => Err(RuntimeError::CannotCompare { typ: type_of(a) }),
    }
}

/// The boolean that a comparison yields from `order`, by the operator's test
/// on (below, equal).
pub open spec fn compared(
    r: Result<(bool, bool), RuntimeError>,
    test: spec_fn(bool, bool) -> bool,
) -> Result<Val, RuntimeError> {
    match r {
        Ok((lt, eq)) => Ok(Val::Bool(test(lt, eq))),
        Err(e) => Err(e),
    }
}

pub open spec fn lt_result(a: Val, b: Val) -> Result<Val, RuntimeError> {
    compared(order(a, b), |lt: bool, eq: bool| lt)
}

pub open spec fn gt_result(a: Val, b: Val) -> Result<Val, RuntimeError> {
    compared(order(a, b), |lt: bool, eq: bool| !lt && !eq)
}

pub open spec fn le_result(a: Val, b: Val) -> Result<Val, RuntimeError> {
    compared(order(a, b), |lt: bool, eq: bool| lt || eq)
}

pub open spec fn ge_result(a: Val, b: Val) -> Result<Val, RuntimeError> {
    compared(order(a, b), |lt: bool, eq: bool| !lt)
}

pub open spec fn eq_result(a: Val, b: Val) -> Result<Val, RuntimeError> {
    compared(order(a, b), |lt: bool, eq: bool| eq)
}

pub open spec fn ne_result(a: Val, b: Val) -> Result<Val, RuntimeError> {
    compared(order(a, b), |lt: bool, eq: bool| !eq)
}

fn number_or(r: Option<Number>, op: Operation) -> (out: Result<Value, RuntimeError>)
    ensures
        result_view(out) == num_result(r, op),
{
    match r {
        Some(n) => Ok(Value::Number(n)),
        None => Err(RuntimeError::OutOfRange { op }),
    }
}

fn bytes_less(a: &[u8], b: &[u8]) -> (r: bool)
    ensures
        r == bytes_lt(a@, b@),
{
    let mut i: usize = 0;
    assert(a@.skip(0) =~= a@);
    assert(b@.skip(0) =~= b@);
    while i < a.len() && i < b.len()
        invariant
            i <= a@.len(),
            i <= b@.len(),
            bytes_lt(a@, b@) == bytes_lt(a@.skip(i as int), b@.skip(i as int)),
        decreases a@.len() - i,
    {
        if a[i] != b[i] {
            return a[i] < b[i];
        }
        assert(a@.skip(i as int).drop_first() =~= a@.skip(i + 1));
        assert(b@.skip(i as int).drop_first() =~= b@.skip(i + 1));
        i = i + 1;
    }
    i == a.len() && i < b.len()
}

/// The name of each type as users see it.
pub open spec fn type_word(t: TypeName) -> Seq<char> {
    match t {
        TypeName::Function => "function"@,
        TypeName::String => "string"@,
        TypeName::Number => "number"@,
        TypeName::Boolean => "boolean"@,
    }
}

impl TypeName {
    /// The name of the type as users see it.
    pub fn name(&self) -> (r: &'static str)
        ensures
            r@ == type_word(*self),
    {
        match self {
            TypeName::Function => "function",
            TypeName::String => "string",
            TypeName::Number => "number",
            TypeName::Boolean => "boolean",
        }
    }
}

impl Value {
    /// A copy of this value; a function is shared, not copied.
    pub fn copy(&self) -> (r: Value)
        ensures
            r@ == self@,
    {
        match self {
            Value::Function(f) => Value::Function(f.clone()),
            Value::String(s) => Value::String(s.clone()),
            Value::Number(n) => Value::Number(*n),
            Value::Bool(b) => Value::Bool(*b),
        }
    }

    pub fn value_type(&self) -> (r: TypeName)
        ensures
            r == type_of(self@),
    {
        match self {
            Value::Function(_) => TypeName::Function,
            Value::String(_) => TypeName::String,
            Value::Number(_) => TypeName::Number,
            Value::Bool(_) => TypeName::Boolean,
        }
    }

    pub fn to_function(&self) -> (r: Result<Rc<Function>, RuntimeError>)
        ensures
            match self@ {
                Val::Func(f) => r == Ok::<Rc<Function>, RuntimeError>(f),
                _ => r == Err::<Rc<Function>, RuntimeError>(wrong_type(TypeName::Function, self@)),
            },
    {
        match self {
            Value::Function(f) => Ok(f.clone()),
            _ => Err(RuntimeError::WrongType { expected: TypeName::Function, got: self.value_type() }),
        }
    }

    pub fn to_str(&self) -> (r: Result<&str, RuntimeError>)
        ensures
            match self@ {
                Val::Str(s) => r is Ok && r->Ok_0@ == s,
                _ => r == Err::<&str, RuntimeError>(wrong_type(TypeName::String, self@)),
            },
    {
        match self {
            Value::String(s) => Ok(s.as_str()),
            _ => Err(RuntimeError::WrongType { expected: TypeName::String, got: self.value_type() }),
        }
    }

    pub fn to_number(&self) -> (r: Result<Number, RuntimeError>)
        ensures
            match self@ {
                Val::Num(n) => r == Ok::<Number, RuntimeError>(n),
                _ => r == Err::<Number, RuntimeError>(wrong_type(TypeName::Number, self@)),
            },
    {
        match self {
            Value::Number(n) => Ok(*n),
            _ => Err(RuntimeError::WrongType { expected: TypeName::Number, got: self.value_type() }),
        }
    }

    pub fn is_truthy(&self) -> (r: bool)
        ensures
            r == truthy(self@),
    {
        match self {
            Value::Function(f) => f.body.len() > 0,
            Value::String(s) => !s.as_str().is_empty(),
            Value::Number(n) => n.is_zero(),
            Value::Bool(b) => *b,
        }
    }

    pub fn add(&self, other: Value) -> (r: Result<Value, RuntimeError>)
        ensures
            result_view(r) == add_result(self@, other@),
    {
        let op = Operation::Addition;
        match self {
            Value::String(x) => {
                let y = other.to_str()?;
                Ok(Value::String(x.clone().concat(y)))
            },
            Value::Number(x) => {
                let y = other.to_number()?;
                number_or(x.checked_add(y), op)
            },
            _ => Err(RuntimeError::CannotPerformOnType { op, typ: self.value_type() }),
        }
    }

    pub fn sub(&self, other: Value) -> (r: Result<Value, RuntimeError>)
        ensures
            result_view(r) == sub_result(self@, other@),
    {
        let op = Operation::Subtraction;
        match self {
            Value::Number(x) => {
                let y = other.to_number()?;
                number_or(x.checked_sub(y), op)
            },
            _ => Err(RuntimeError::CannotPerformOnType { op, typ: self.value_type() }),
        }
    }

    pub fn mul(&self, other: Value) -> (r: Result<Value, RuntimeError>)
        ensures
            result_view(r) == mul_result(self@, other@),
    {
        let op = Operation::Multiplication;
        match self {
            Value::String(x) => match other {
                Value::Number(n) => {
                    let count = n.repeat_count();
                    let mut out = String::new();
                    let mut i: u64 = 0;
                    while i < count
                        invariant
                            i <= count,
                            out@ == repeat(x@, i as nat),
                        decreases count - i,
                    {
                        out = out.concat(x.as_str());
                        i = i + 1;
                    }
                    Ok(Value::String(out))
                },
                _ => Err(RuntimeError::CannotPerformOnTypeWith {
                    op,
                    typ: TypeName::String,
                    with: other.value_type(),
                }),
            },
            Value::Number(x) => {
                let y = other.to_number()?;
                number_or(x.checked_mul(y), op)
            },
            _ => Err(RuntimeError::CannotPerformOnType { op, typ: self.value_type() }),
        }
    }

    pub fn div(&self, other: Value) -> (r: Result<Value, RuntimeError>)
        ensures
            result_view(r) == div_result(self@, other@),
    {
        let op = Operation::Division;
        match self {
            Value::Number(x) => {
                let y = other.to_number()?;
                if y.is_zero() {
                    Err(RuntimeError::DivisionByZero)
                } else {
                    number_or(x.checked_div(y), op)
                }
            },
            _ => Err(RuntimeError::CannotPerformOnType { op, typ: self.value_type() }),
        }
    }

    pub fn negate(&self) -> (r: Result<Value, RuntimeError>)
        ensures
            result_view(r) == neg_result(self@),
    {
        let x = self.to_number()?;
        number_or(x.checked_neg(), Operation::Negation)
    }

    fn order(&self, other: &Value) -> (r: Result<(bool, bool), RuntimeError>)
        ensures
            r == order(self@, other@),
    {
        match self {
            Value::String(x) => match other {
                Value::String(y) => {
                    let lt = bytes_less(x.as_str().as_bytes(), y.as_str().as_bytes());
                    let eq = x.eq(y);
                    Ok((lt, eq))
                },
                _ => Err(RuntimeError::WrongType { expected: TypeName::String, got: other.value_type() }),
            },
            Value::Number(x) => {
                let y = other.to_number()?;
                Ok((x.units < y.units, x.units == y.units))
            },
            _ => Err(RuntimeError::CannotCompare { typ: self.value_type() }),
        }
    }

    pub fn lt(&self, other: Value) -> (r: Result<Value, RuntimeError>)
        ensures
            result_view(r) == lt_result(self@, other@),
    {
        let (lt, _) = self.order(&other)?;
        Ok(Value::Bool(lt))
    }

    pub fn gt(&self, other: Value) -> (r: Result<Value, RuntimeError>)
        ensures
            result_view(r) == gt_result(self@, other@),
    {
        let (lt, eq) = self.order(&other)?;
        Ok(Value::Bool(!lt && !eq))
    }

    pub fn le(&self, other: Value) -> (r: Result<Value, RuntimeError>)
        ensures
            result_view(r) == le_result(self@, other@),
    {
        let (lt, eq) = self.order(&other)?;
        Ok(Value::Bool(lt || eq))
    }

    pub fn ge(&self, other: Value) -> (r: Result<Value, RuntimeError>)
        ensures
            result_view(r) == ge_result(self@, other@),
    {
        let (lt, _) = self.order(&other)?;
        Ok(Value::Bool(!lt))
    }

    pub fn eq(&self, other: Value) -> (r: Result<Value, RuntimeError>)
        ensures
            result_view(r) == eq_result(self@, other@),
    {
        let (_, eq) = self.order(&other)?;
        Ok(Value::Bool(eq))
    }

    pub fn ne(&self, other: Value) -> (r: Result<Value, RuntimeError>)
        ensures
            result_view(r) == ne_result(self@, other@),
    {
        let (_, eq) = self.order(&other)?;
        Ok(Value::Bool(!eq))
    }
}

} // verus!
