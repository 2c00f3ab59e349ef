use vstd::prelude::*;
use vstd::string::StringExecFns;
use crate::ast::{Expr, Literal, Stmt};
use crate::parser::{stmt_view, StmtV};
use crate::token::kind_name;
use crate::value::{Val, Value};

verus! {

/// The character of the decimal digit `d`.
pub open spec fn digit_char(d: int) -> char {
    if d == 0 {
        '0'
    } else if d == 1 {
        '1'
    } else if d == 2 {
        '2'
    } else if d == 3 {
        '3'
    } else if d == 4 {
        '4'
    } else if d == 5 {
        '5'
    } else if d == 6 {
        '6'
    } else if d == 7 {
        '7'
    } else if d == 8 {
        '8'
    } else {
        '9'
    }
}

/// The decimal digits of `n`, without leading zeros.
pub open spec fn digits_text(n: nat) -> Seq<char>
    decreases n,
{
    if n < 10 {
        seq![digit_char(n as int)]
    } else {
        digits_text(n / 10).push(digit_char((n % 10) as int))
    }
}

/// The last `k` decimal digits of `n`, with leading zeros.
pub open spec fn fixed_digits(n: nat, k: nat) -> Seq<char>
    decreases k,
{
    if k == 0 {
        Seq::empty()
    } else {
        fixed_digits(n / 10, (k - 1) as nat).push(digit_char((n % 10) as int))
    }
}

/// `f` written with `k` digits after the decimal point, trailing zeros
/// dropped.
pub open spec fn fraction_text(f: nat, k: nat) -> Seq<char>
    decreases k,
{
    if k > 0 && f % 10 == 0 {
        fraction_text(f / 10, (k - 1) as nat)
    } else {
        fixed_digits(f, k)
    }
}

/// A number's units in natural decimal form: a minus sign when negative,
/// the whole part, and the fraction only when it is not zero.
pub open spec fn number_text(units: int) -> Seq<char> {
    let m = if units < 0 { -units } else { units };
    let whole = digits_text((m / 1_000_000) as nat);
    let sign = if units < 0 { seq!['-'] } else { Seq::empty() };
    let f = m % 1_000_000;
    if f == 0 {
        sign + whole
    } else {
        sign + whole + seq!['.'] + fraction_text(f as nat, 6)
    }
}

/// The names joined with `", "` between them.
pub open spec fn joined(names: Seq<String>) -> Seq<char>
    decreases names.len(),
{
    if names.len() == 0 {
        Seq::empty()
    } else if names.len() == 1 {
        names[0]@
    } else {
        joined(names.drop_last()) + seq![',', ' '] + names.last()@
    }
}

/// How a value is printed.
pub open spec fn display_text(v: Val) -> Seq<char> {
    match v {
        Val::Func(f) => seq!['<', 'f', 'u', 'n', 'c', 't', 'i', 'o', 'n', ' '] + f.ident@ + seq!['(']
            + joined(f.params@) + seq![')', '>'],
        Val::Str(s) => s,
        Val::Num(n) => number_text(n.units as int),
        Val::Bool(b) => if b {
            seq!['t', 'r', 'u', 'e']
        } else {
            seq!['f', 'a', 'l', 's', 'e']
        },
    }
}

fn digit_str(d: u64) -> (r: &'static str)
    requires
        d < 10,
    ensures
        r@ == seq![digit_char(d as int)],
{
    proof {
        reveal_strlit("0");
        reveal_strlit("1");
        reveal_strlit("2");
        reveal_strlit("3");
        reveal_strlit("4");
        reveal_strlit("5");
        reveal_strlit("6");
        reveal_strlit("7");
        reveal_strlit("8");
        reveal_strlit("9");
    }
    match d {
        0 => "0",
        1 => "1",
        2 => "2",
        3 => "3",
        4 => "4",
        5 => "5",
        6 => "6",
        7 => "7",
        8 => "8",
        _ => "9",
    }
}

/// Appends the digits of `n` to `out`.
fn push_digits(out: String, n: u64) -> (r: String)
    ensures
        r@ == out@ + digits_text(n as nat),
    decreases n,
{
    if n < 10 {
        out.concat(digit_str(n))
    } else {
        let ghost start = out@;
        let mid = push_digits(out, n / 10);
        let r = mid.concat(digit_str(n % 10));
        assert(r@ =~= start + digits_text(n as nat));
        r
    }
}

/// Appends the last `k` digits of `n`, with leading zeros, to `out`.
fn push_fixed(out: String, n: u64, k: u64) -> (r: String)
    ensures
        r@ == out@ + fixed_digits(n as nat, k as nat),
    decreases k,
{
    if k == 0 {
        assert(out@ + Seq::<char>::empty() =~= out@);
        out
    } else {
        let out2 = push_fixed(out, n / 10, k - 1);
        let r = out2.concat(digit_str(n % 10));
        assert(r@ =~= out@ + fixed_digits(n as nat, k as nat));
        r
    }
}

fn number_string(units: i64) -> (r: String)
    ensures
        r@ == number_text(units as int),
{
    let m: u64 = if units < 0 {
        (-(units as i128)) as u64
    } else {
        units as u64
    };
    let mut out = String::new();
    if units < 0 {
        proof {
            reveal_strlit("-");
        }
        out = out.concat("-");
    }
    out = push_digits(out, m / 1_000_000);
    let f = m % 1_000_000;
    if f != 0 {
        proof {
            reveal_strlit(".");
        }
        out = out.concat(".");
        let mut g = f;
        let mut k: u64 = 6;
        while k > 0 && g % 10 == 0
            invariant
                k <= 6,
                fraction_text(f as nat, 6) == fraction_text(g as nat, k as nat),
            decreases k,
        {
            g = g / 10;
            k = k - 1;
        }
        out = push_fixed(out, g, k);
    }
    proof {
        let sign = if units < 0 { seq!['-'] } else { Seq::<char>::empty() };
        assert(sign + digits_text((m / 1_000_000) as nat) + Seq::<char>::empty() =~= sign + digits_text((m / 1_000_000) as nat));
    }
    out
}

impl Value {
    /// The text that `print` writes for this value.
    pub fn display(&self) -> (r: String)
        ensures
            r@ == display_text(self@),
    {
        match self {
            Value::Function(f) => {
                proof {
                    reveal_strlit("<function ");
                    reveal_strlit("(");
                    reveal_strlit(", ");
                    reveal_strlit(")>");
                }
                let mut out = String::new().concat("<function ").concat(f.ident.as_str()).concat("(");
                let ghost head = out@;
                let mut i: usize = 0;
                while i < f.params.len()
                    invariant
                        i <= f.params@.len(),
                        out@ == head + joined(f.params@.subrange(0, i as int)),
                    decreases f.params@.len() - i,
                {
                    let ghost before = f.params@.subrange(0, i as int);
                    let ghost after = f.params@.subrange(0, i + 1);
                    assert(after.drop_last() =~= before);
                    if i > 0 {
                        out = out.concat(", ");
                    }
                    out = out.concat(f.params[i].as_str());
                    proof {
                        if i == 0 {
                            assert(before =~= Seq::<String>::empty());
                            assert(head + joined(before) =~= head);
                        } else {
                            reveal_strlit(", ");
                            assert(joined(after) == joined(before) + seq![',', ' '] + f.params@[i as int]@);
                            assert(out@ =~= head + joined(after));
                        }
                    }
                    i = i + 1;
                }
                assert(f.params@.subrange(0, f.params@.len() as int) =~= f.params@);
                out.concat(")>")
            },
            Value::String(s) => s.clone(),
            Value::Number(n) => number_string(n.units),
            Value::Bool(b) => {
                proof {
                    reveal_strlit("true");
                    reveal_strlit("false");
                }
                if *b {
                    String::from_str("true")
                } else {
                    String::from_str("false")
                }
            },
        }
    }
}

pub open spec fn literal_text(l: Literal) -> Seq<char> {
    match l {
        Literal::String(s) => s@,
        Literal::Float(n) => number_text(n.units as int),
        Literal::Int(n) => number_text(n.units as int),
        Literal::Bool(b) => display_text(Val::Bool(b)),
    }
}

/// An expression in prefix form: `(op lhs rhs)`, `(op operand)`, or the
/// name, literal or `pop` itself.
pub open spec fn expr_text(e: Expr) -> Seq<char>
    decreases e,
{
    match e {
        Expr::Ident(s) => s@,
        Expr::Literal(l) => literal_text(l),
        Expr::BinaryOp { op, lhs, rhs } => seq!['('] + kind_name(op) + seq![' '] + expr_text(*lhs)
            + seq![' '] + expr_text(*rhs) + seq![')'],
        Expr::UnaryOp { op, expr } => seq!['('] + kind_name(op) + seq![' '] + expr_text(*expr) + seq![')'],
        Expr::Pop => seq!['p', 'o', 'p'],
    }
}

impl Literal {
    /// The literal as written in prefix form.
    pub fn to_text(&self) -> (r: String)
        ensures
            r@ == literal_text(*self),
    {
        match self {
            Literal::String(s) => s.clone(),
            Literal::Float(n) => number_string(n.units),
            Literal::Int(n) => number_string(n.units),
            Literal::Bool(b) => Value::Bool(*b).display(),
        }
    }
}

impl Expr {
    /// The expression in prefix form.
    pub fn to_text(&self) -> (r: String)
        ensures
            r@ == expr_text(*self),
        decreases self,
    {
        proof {
            reveal_strlit("(");
            reveal_strlit(" ");
            reveal_strlit(")");
            reveal_strlit("pop");
        }
        match self {
            Expr::Ident(s) => s.clone(),
            Expr::Literal(l) => l.to_text(),
            Expr::BinaryOp { op, lhs, rhs } => {
                let l = lhs.to_text();
                let r = rhs.to_text();
                String::from_str("(").concat(op.name()).concat(" ").concat(l.as_str()).concat(" ").concat(
                    r.as_str(),
                ).concat(")")
            },
            Expr::UnaryOp { op, expr } => {
                let e = expr.to_text();
                String::from_str("(").concat(op.name()).concat(" ").concat(e.as_str()).concat(")")
            },
            Expr::Pop => String::from_str("pop"),
        }
    }
}

/// Texts joined with single spaces between them.
pub open spec fn spaced(parts: Seq<Seq<char>>) -> Seq<char>
    decreases parts.len(),
{
    if parts.len() == 0 {
        Seq::empty()
    } else if parts.len() == 1 {
        parts[0]
    } else {
        spaced(parts.drop_last()) + seq![' '] + parts.last()
    }
}

/// A statement in prefix form, such as `(set x 1)` or
/// `(define f (a b) (push a))`.
pub open spec fn view_text(v: StmtV) -> Seq<char>
    decreases v, 1nat,
{
    match v {
        StmtV::FnDef { ident, params, body } => seq!['(', 'd', 'e', 'f', 'i', 'n', 'e', ' '] + ident@
            + seq![' ', '('] + spaced(params.map_values(|p: String| p@)) + seq![')', ' '] + body_text(
            body,
            body.len(),
        ) + seq![')'],
        StmtV::Assign { ident, expr } => seq!['(', 's', 'e', 't', ' '] + ident@ + seq![' '] + expr_text(
            expr,
        ) + seq![')'],
        StmtV::Push(e) => seq!['(', 'p', 'u', 's', 'h', ' '] + expr_text(e) + seq![')'],
        StmtV::Print(e) => seq!['(', 'p', 'r', 'i', 'n', 't', ' '] + expr_text(e) + seq![')'],
        StmtV::FnCall(n) => seq!['(', 'c', 'a', 'l', 'l', ' '] + n@ + seq![')'],
        StmtV::Pop => seq!['p', 'o', 'p'],
    }
}

/// The first `n` statements of a body in prefix form, separated by spaces.
pub open spec fn body_text(body: Seq<StmtV>, n: nat) -> Seq<char>
    decreases body, 0nat, n,
{
    if n == 0 || n > body.len() {
        Seq::empty()
    } else if n == 1 {
        view_text(body[0])
    } else {
        body_text(body, (n - 1) as nat) + seq![' '] + view_text(body[n - 1])
    }
}

/// A statement in prefix form.
pub open spec fn stmt_text(st: Stmt) -> Seq<char> {
    view_text(stmt_view(st))
}

proof fn lemma_body_smaller(st: Stmt, i: int)
    requires
        st is FnDef,
        0 <= i < st->FnDef_0.body@.len(),
    ensures
        decreases_to!(st => st->FnDef_0.body@[i]),
{
    broadcast use vstd::std_specs::vec::axiom_vec_decreases_to_view;

    let f = st->FnDef_0;
    assert(decreases_to!(f.body => f.body@));
    assert(decreases_to!(f.body@ => f.body@[i]));
}

impl Stmt {
    /// The statement in prefix form.
    pub fn to_text(&self) -> (r: String)
        ensures
            r@ == stmt_text(*self),
        decreases self,
    {
        proof {
            reveal_strlit("(define ");
            reveal_strlit(" (");
            reveal_strlit(") ");
            reveal_strlit(" ");
            reveal_strlit(")");
            reveal_strlit("(set ");
            reveal_strlit("(push ");
            reveal_strlit("(print ");
            reveal_strlit("(call ");
            reveal_strlit("pop");
        }
        match self {
            Stmt::FnDef(f) => {
                let ghost v = stmt_view(*self);
                let ghost names = f.params@.map_values(|p: String| p@);
                let ghost body = v->FnDef_body;
                assert(v->FnDef_params == f.params@);
                assert(body.len() == f.body@.len());
                assert(forall|k: int| 0 <= k < f.body@.len() ==> #[trigger] body[k] == stmt_view(f.body@[k]));
                let mut out = String::from_str("(define ").concat(f.ident.as_str()).concat(" (");
                let ghost head = out@;
                let mut i: usize = 0;
                assert(names.subrange(0, 0) =~= Seq::<Seq<char>>::empty());
                while i < f.params.len()
                    invariant
                        i <= f.params@.len(),
                        names == f.params@.map_values(|p: String| p@),
                        out@ == head + spaced(names.subrange(0, i as int)),
                    decreases f.params@.len() - i,
                {
                    proof {
                        reveal_strlit(" ");
                        assert(names.subrange(0, i + 1).drop_last() =~= names.subrange(0, i as int));
                    }
                    if i > 0 {
                        out = out.concat(" ");
                    }
                    out = out.concat(f.params[i].as_str());
                    i = i + 1;
                    assert(out@ =~= head + spaced(names.subrange(0, i as int)));
                }
                assert(names.subrange(0, names.len() as int) =~= names);
                out = out.concat(") ");
                let ghost head2 = out@;
                let mut j: usize = 0;
                assert(*self == Stmt::FnDef(*f));
                while j < f.body.len()
                    invariant
                        *self == Stmt::FnDef(*f),
                        j <= f.body@.len(),
                        body.len() == f.body@.len(),
                        forall|k: int| 0 <= k < f.body@.len() ==> #[trigger] body[k] == stmt_view(f.body@[k]),
                        out@ == head2 + body_text(body, j as nat),
                    decreases f.body@.len() - j,
                {
                    proof {
                        reveal_strlit(" ");
                        lemma_body_smaller(*self, j as int);
                    }
                    let t = f.body[j].to_text();
                    if j > 0 {
                        out = out.concat(" ");
                    }
                    out = out.concat(t.as_str());
                    j = j + 1;
                    assert(out@ =~= head2 + body_text(body, j as nat));
                }
                assert(names == v->FnDef_params.map_values(|p: String| p@));
                out.concat(")")
            },
            Stmt::Assign { ident, expr } => {
                let e = expr.to_text();
                String::from_str("(set ").concat(ident.as_str()).concat(" ").concat(e.as_str()).concat(")")
            },
            Stmt::Push(expr) => {
                let e = expr.to_text();
                String::from_str("(push ").concat(e.as_str()).concat(")")
            },
            Stmt::Print(expr) => {
                let e = expr.to_text();
                String::from_str("(print ").concat(e.as_str()).concat(")")
            },
            Stmt::FnCall(name) => String::from_str("(call ").concat(name.as_str()).concat(")"),
            Stmt::Pop => String::from_str("pop"),
        }
    }
}

} // verus!
