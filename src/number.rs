use vstd::prelude::*;

verus! {

/// How many units make one: numbers carry six decimal places.
pub const SCALE: i64 = 1_000_000;

/// A signed fixed-point decimal: the value is `units / SCALE`.
#[derive(Clone, Copy, PartialEq, Eq, Debug, Structural)]
pub struct Number {
    pub units: i64,
}

/// `x` fits the 64-bit signed range.
pub open spec fn fits(x: int) -> bool {
    i64::MIN <= x <= i64::MAX
}

pub open spec fn abs(x: int) -> int {
    if x < 0 {
        -x
    } else {
        x
    }
}

/// Division that rounds toward zero.
pub open spec fn trunc_div(x: int, y: int) -> int {
    let q = abs(x) / abs(y);
    if (x < 0) != (y < 0) {
        -q
    } else {
        q
    }
}

/// `Some` of the number with `units` when it fits, else `None`.
pub open spec fn checked(units: int) -> Option<Number> {
    if fits(units) {
        Some(Number { units: units as i64 })
    } else {
        None
    }
}

/// Number of whole units in `n`, rounded toward zero and never below zero.
pub open spec fn whole_count(n: Number) -> int {
    if n.units < 0 {
        0
    } else {
        n.units as int / SCALE as int
    }
}

fn from_wide(x: i128) -> (r: Option<Number>)
    ensures
        r == checked(x as int),
{
    if x < i64::MIN as i128 || x > i64::MAX as i128 {
        None
    } else {
        Some(Number { units: x as i64 })
    }
}

/// `trunc_div(x, y)` computed on 128-bit integers.
fn wide_trunc_div(x: i128, y: i128) -> (r: i128)
    requires
        y != 0,
        x > i128::MIN,
        y > i128::MIN,
    ensures
        r as int == trunc_div(x as int, y as int),
{
    let ax: u128 = if x < 0 {
        (-x) as u128
    } else {
        x as u128
    };
    let ay: u128 = if y < 0 {
        (-y) as u128
    } else {
        y as u128
    };
    let q: u128 = ax / ay;
    proof {
        assert(q <= ax) by (nonlinear_arith)
            requires
                q == ax / ay,
                ay >= 1,
        ;
    }
    if (x < 0) != (y < 0) {
        -(q as i128)
    } else {
        q as i128
    }
}

impl Number {
    /// The number `n` (a whole number), if it fits.
    pub fn from_int(n: i64) -> (r: Option<Number>)
        ensures
            r == checked(n as int * SCALE as int),
    {
        let wide = n as i128;
        proof {
            assert(-0x8000_0000_0000_0000_0000_0000 < wide * 1_000_000
                < 0x8000_0000_0000_0000_0000_0000) by (nonlinear_arith)
                requires
                    -0x8000_0000_0000_0000 <= wide <= 0x7fff_ffff_ffff_ffff,
            ;
        }
        from_wide(wide * SCALE as i128)
    }

    pub fn checked_add(&self, other: Number) -> (r: Option<Number>)
        ensures
            r == checked(self.units + other.units),
    {
        from_wide(self.units as i128 + other.units as i128)
    }

    pub fn checked_sub(&self, other: Number) -> (r: Option<Number>)
        ensures
            r == checked(self.units - other.units),
    {
        from_wide(self.units as i128 - other.units as i128)
    }

    /// The product, rounded toward zero to six decimal places.
    pub fn checked_mul(&self, other: Number) -> (r: Option<Number>)
        ensures
            r == checked(trunc_div(self.units * other.units, SCALE as int)),
    {
        let a = self.units as i128;
        let b = other.units as i128;
        proof {
            assert(-0x8000_0000_0000_0000_0000_0000_0000_0000 < a * b
                < 0x8000_0000_0000_0000_0000_0000_0000_0000) by (nonlinear_arith)
                requires
                    -0x8000_0000_0000_0000 <= a <= 0x7fff_ffff_ffff_ffff,
                    -0x8000_0000_0000_0000 <= b <= 0x7fff_ffff_ffff_ffff,
            ;
        }
        from_wide(wide_trunc_div(a * b, SCALE as i128))
    }

    /// The quotient, rounded toward zero to six decimal places.
    pub fn checked_div(&self, other: Number) -> (r: Option<Number>)
        requires
            other.units != 0,
        ensures
            r == checked(trunc_div(self.units * SCALE, other.units as int)),
    {
        let wide = self.units as i128;
        proof {
            assert(-0x8000_0000_0000_0000_0000_0000 < wide * 1_000_000
                < 0x8000_0000_0000_0000_0000_0000) by (nonlinear_arith)
                requires
                    -0x8000_0000_0000_0000 <= wide <= 0x7fff_ffff_ffff_ffff,
            ;
        }
        let a = wide * SCALE as i128;
        from_wide(wide_trunc_div(a, other.units as i128))
    }

    pub fn checked_neg(&self) -> (r: Option<Number>)
        ensures
            r == checked(-self.units),
    {
        from_wide(-(self.units as i128))
    }

    pub fn is_zero(&self) -> (r: bool)
        ensures
            r == (self.units == 0),
    {
        self.units == 0
    }

    /// How many times a string is repeated when multiplied by this number.
    pub fn repeat_count(&self) -> (r: u64)
        ensures
            r as int == whole_count(*self),
    {
        if self.units < 0 {
            0
        } else {
            (self.units / SCALE) as u64
        }
    }
}

} // verus!
