//! Exact rational numbers for the control path.
//!
//! The host's control domain is real-valued; inside the library every such
//! value is an exact fraction `num / den` with a positive denominator, so
//! that normalization, decay and comparison contracts can be stated and
//! proved over plain integers.

use vstd::prelude::*;

verus! {

/// An exact rational number `num / den`, with `den >= 1`.
#[derive(Clone, Copy, PartialEq, Eq, Structural, Debug)]
pub struct Ratio {
    pub num: i64,
    pub den: i64,
}

/// Quotient of `a / b` truncated toward zero (the rounding Rust's integer
/// division uses), expressed with Verus's Euclidean `/` on magnitudes.
pub open spec fn trunc_div(a: int, b: int) -> int
    recommends
        b >= 1,
{
    if a >= 0 {
        a / b
    } else {
        -((-a) / b)
    }
}

impl Ratio {
    /// A denominator of zero never denotes a value.
    pub open spec fn wf(self) -> bool {
        self.den >= 1
    }

    /// The denoted value lies in the normalized domain `[0, 1]`.
    pub open spec fn is_normalized(self) -> bool {
        0 <= self.num <= self.den
    }

    pub fn new(num: i64, den: i64) -> (r: Ratio)
        requires
            den >= 1,
        ensures
            r == (Ratio { num, den }),
            r.wf(),
    {
        Ratio { num, den }
    }

    pub fn from_int(n: i64) -> (r: Ratio)
        ensures
            r == (Ratio { num: n, den: 1i64 }),
            r.wf(),
    {
        Ratio { num: n, den: 1 }
    }

    /// The denoted value, truncated toward zero to an integer.
    pub fn trunc(&self) -> (r: i64)
        requires
            self.wf(),
        ensures
            r == trunc_div(self.num as int, self.den as int),
    {
        trunc_div_i128(self.num as i128, self.den as i128) as i64
    }
}

/// Truncating division on wide integers; the divisor must be positive and
/// the dividend must not be the minimum value (whose magnitude has no
/// wide-integer negation).
pub fn trunc_div_i128(a: i128, b: i128) -> (q: i128)
    requires
        b >= 1,
        a > i128::MIN,
    ensures
        q == trunc_div(a as int, b as int),
        a >= 0 ==> 0 <= q <= a,
        a < 0 ==> a <= q <= 0,
{
    if a >= 0 {
        let ua: u128 = a as u128;
        let ub: u128 = b as u128;
        let uq: u128 = ua / ub;
        assert(uq <= ua) by {
            vstd::arithmetic::div_mod::lemma_div_nonincreasing(ua as int, ub as int);
        };
        uq as i128
    } else {
        let ua: u128 = (-a) as u128;
        let ub: u128 = b as u128;
        let uq: u128 = ua / ub;
        assert(uq <= ua) by {
            vstd::arithmetic::div_mod::lemma_div_nonincreasing(ua as int, ub as int);
        };
        -(uq as i128)
    }
}

} // verus!
