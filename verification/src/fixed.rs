//! Fixed-point numbers with nine decimal places.
//!
//! Every quantity of the simulation (seconds, pixels, matrix entries) is a
//! [`Fixed`]: a signed count of billionths. Arithmetic never traps: a result
//! that does not fit is held at the nearest end of the range, and products
//! and quotients are rounded towards negative infinity.

use vstd::prelude::*;
use vstd::arithmetic::div_mod::{
    lemma_fundamental_div_mod,
    lemma_fundamental_div_mod_converse,
    lemma_mod_bound,
};

verus! {

/// Raw steps in one whole unit.
pub const SCALE: i64 = 1_000_000_000;

/// The representable value nearest to `x`.
pub open spec fn saturate(x: int) -> i64 {
    if x < i64::MIN {
        i64::MIN
    } else if x > i64::MAX {
        i64::MAX
    } else {
        x as i64
    }
}

/// A number stored as `raw` billionths.
#[derive(Clone, Copy, Debug, PartialEq, Eq, Structural)]
pub struct Fixed {
    pub raw: i64,
}

/// Brings a wide intermediate result back into range.
fn narrow(x: i128) -> (r: Fixed)
    ensures
        r.raw == saturate(x as int),
{
    if x < i64::MIN as i128 {
        Fixed { raw: i64::MIN }
    } else if x > i64::MAX as i128 {
        Fixed { raw: i64::MAX }
    } else {
        Fixed { raw: x as i64 }
    }
}

/// Quotient of `p` by a positive `d`, rounded towards negative infinity.
fn floor_div(p: i128, d: i128) -> (q: i128)
    requires
        0 < d <= 0x4000_0000_0000_0000_0000_0000_0000_0000,
        -0x4000_0000_0000_0000_0000_0000_0000_0000 <= p,
        p <= 0x4000_0000_0000_0000_0000_0000_0000_0000,
    ensures
        q == (p as int) / (d as int),
{
    if p >= 0 {
        p / d
    } else {
        let n: i128 = -p;
        let t: i128 = (n + (d - 1)) / d;
        proof {
            let up = (n + (d - 1)) as int;
            let r = up % (d as int);
            lemma_fundamental_div_mod(up, d as int);
            lemma_mod_bound(up, d as int);
            assert(p == d * (-t) + (d - 1 - r)) by (nonlinear_arith)
                requires
                    up == d * t + r,
                    up == -p + d - 1,
            ;
            lemma_fundamental_div_mod_converse(p as int, d as int, -(t as int), d - 1 - r);
        }
        -t
    }
}

impl Fixed {
    /// The number whose stored count is `raw`.
    pub fn from_raw(raw: i64) -> (r: Fixed)
        ensures
            r.raw == raw,
    {
        Fixed { raw }
    }

    pub open spec fn spec_from_int(n: i32) -> Fixed {
        Fixed { raw: (n * SCALE) as i64 }
    }

    /// The whole number `n`.
    #[verifier::when_used_as_spec(spec_from_int)]
    pub fn from_int(n: i32) -> (r: Fixed)
        ensures
            r == Fixed::spec_from_int(n),
            r.raw == n * SCALE,
    {
        let wide: i64 = n as i64;
        Fixed { raw: wide * 1_000_000_000 }
    }

    pub open spec fn spec_ratio(num: i32, den: i32) -> Fixed {
        Fixed { raw: ((num * SCALE) / (den as int)) as i64 }
    }

    /// The quotient `num / den`, rounded towards negative infinity.
    #[verifier::when_used_as_spec(spec_ratio)]
    pub fn ratio(num: i32, den: i32) -> (r: Fixed)
        requires
            den > 0,
        ensures
            r == Fixed::spec_ratio(num, den),
            r.raw == (num * SCALE) / (den as int),
    {
        let p: i128 = (num as i128) * 1_000_000_000;
        let q: i128 = floor_div(p, den as i128);
        proof {
            lemma_quotient_bounded(p as int, den as int);
        }
        Fixed { raw: q as i64 }
    }

    pub open spec fn spec_add(self, rhs: Fixed) -> Fixed {
        Fixed { raw: saturate(self.raw + rhs.raw) }
    }

    /// Sum, held at the ends of the range.
    #[verifier::when_used_as_spec(spec_add)]
    pub fn add(self, rhs: Fixed) -> (r: Fixed)
        ensures
            r == self.spec_add(rhs),
    {
        narrow(self.raw as i128 + rhs.raw as i128)
    }

    pub open spec fn spec_sub(self, rhs: Fixed) -> Fixed {
        Fixed { raw: saturate(self.raw - rhs.raw) }
    }

    /// Difference, held at the ends of the range.
    #[verifier::when_used_as_spec(spec_sub)]
    pub fn sub(self, rhs: Fixed) -> (r: Fixed)
        ensures
            r == self.spec_sub(rhs),
    {
        narrow(self.raw as i128 - rhs.raw as i128)
    }

    pub open spec fn spec_neg(self) -> Fixed {
        Fixed { raw: saturate(-self.raw) }
    }

    /// Negation; the lowest value is sent to the highest.
    #[verifier::when_used_as_spec(spec_neg)]
    pub fn neg(self) -> (r: Fixed)
        ensures
            r == self.spec_neg(),
    {
        narrow(-(self.raw as i128))
    }

    pub open spec fn spec_mul(self, rhs: Fixed) -> Fixed {
        Fixed { raw: saturate((self.raw * rhs.raw) / (SCALE as int)) }
    }

    /// Product, rounded towards negative infinity and held at the ends of
    /// the range.
    #[verifier::when_used_as_spec(spec_mul)]
    pub fn mul(self, rhs: Fixed) -> (r: Fixed)
        ensures
            r == self.spec_mul(rhs),
    {
        let a: i128 = self.raw as i128;
        let b: i128 = rhs.raw as i128;
        assert(-0x4000_0000_0000_0000_0000_0000_0000_0000 <= a * b
            <= 0x4000_0000_0000_0000_0000_0000_0000_0000) by (nonlinear_arith)
            requires
                -0x8000_0000_0000_0000 <= a <= 0x8000_0000_0000_0000,
                -0x8000_0000_0000_0000 <= b <= 0x8000_0000_0000_0000,
        ;
        let p: i128 = a * b;
        narrow(floor_div(p, SCALE as i128))
    }

    pub open spec fn spec_half(self) -> Fixed {
        Fixed { raw: (self.raw as int / 2) as i64 }
    }

    /// Half of the value, rounded towards negative infinity.
    #[verifier::when_used_as_spec(spec_half)]
    pub fn half(self) -> (r: Fixed)
        ensures
            r == self.spec_half(),
    {
        if self.raw >= 0 {
            Fixed { raw: self.raw / 2 }
        } else {
            Fixed { raw: -((-(self.raw + 1)) / 2) - 1 }
        }
    }

    pub open spec fn spec_max(self, rhs: Fixed) -> Fixed {
        if self.raw >= rhs.raw {
            self
        } else {
            rhs
        }
    }

    /// The larger of two values.
    #[verifier::when_used_as_spec(spec_max)]
    pub fn max(self, rhs: Fixed) -> (r: Fixed)
        ensures
            r == self.spec_max(rhs),
    {
        if self.raw >= rhs.raw {
            self
        } else {
            rhs
        }
    }

    pub open spec fn spec_clamp(self, lo: Fixed, hi: Fixed) -> Fixed {
        if self.raw < lo.raw {
            lo
        } else if self.raw > hi.raw {
            hi
        } else {
            self
        }
    }

    /// The value itself when it lies between `lo` and `hi`; `lo` when it is
    /// below `lo`, and otherwise `hi`.
    #[verifier::when_used_as_spec(spec_clamp)]
    pub fn clamp(self, lo: Fixed, hi: Fixed) -> (r: Fixed)
        ensures
            r == self.spec_clamp(lo, hi),
    {
        if self.raw < lo.raw {
            lo
        } else if self.raw > hi.raw {
            hi
        } else {
            self
        }
    }

    /// Whether `self` is strictly below `rhs`.
    pub fn lt(self, rhs: Fixed) -> (r: bool)
        ensures
            r == (self.raw < rhs.raw),
    {
        self.raw < rhs.raw
    }

    /// Whether `self` is strictly above `rhs`.
    pub fn gt(self, rhs: Fixed) -> (r: bool)
        ensures
            r == (self.raw > rhs.raw),
    {
        self.raw > rhs.raw
    }

    /// Whether `self` is at least `rhs`.
    pub fn ge(self, rhs: Fixed) -> (r: bool)
        ensures
            r == (self.raw >= rhs.raw),
    {
        self.raw >= rhs.raw
    }

    /// Whether `self` is at most `rhs`.
    pub fn le(self, rhs: Fixed) -> (r: bool)
        ensures
            r == (self.raw <= rhs.raw),
    {
        self.raw <= rhs.raw
    }
}

/// A quotient by a positive divisor is no larger in magnitude than the
/// dividend.
proof fn lemma_quotient_bounded(p: int, d: int)
    requires
        d > 0,
    ensures
        p >= 0 ==> 0 <= p / d <= p,
        p < 0 ==> p <= p / d < 0,
{
    lemma_fundamental_div_mod(p, d);
    lemma_mod_bound(p, d);
    let q = p / d;
    let r = p % d;
    if p >= 0 {
        assert(0 <= q <= p) by (nonlinear_arith)
            requires
                p == d * q + r,
                0 <= r < d,
                d > 0,
                p >= 0,
        ;
    } else {
        assert(p <= q < 0) by (nonlinear_arith)
            requires
                p == d * q + r,
                0 <= r < d,
                d > 0,
                p < 0,
        ;
    }
}

/// Multiplying by the whole number one changes nothing, on either side.
pub proof fn lemma_mul_unit(a: Fixed)
    ensures
        a.mul(Fixed::from_int(1)) == a,
        Fixed::from_int(1).mul(a) == a,
{
    assert((a.raw * SCALE) / (SCALE as int) == a.raw) by (nonlinear_arith);
    assert((SCALE * a.raw) / (SCALE as int) == a.raw) by (nonlinear_arith);
}

/// A product with zero is zero, on either side.
pub proof fn lemma_mul_zero(a: Fixed)
    ensures
        a.mul(Fixed::from_int(0)) == Fixed::from_int(0),
        Fixed::from_int(0).mul(a) == Fixed::from_int(0),
{
    assert(a.raw * 0 == 0);
    assert(0 * a.raw == 0);
}

/// Multiplying by a whole number multiplies the stored count by it.
pub proof fn lemma_mul_whole(a: Fixed, n: i32)
    ensures
        a.mul(Fixed::from_int(n)).raw == saturate(a.raw * n),
{
    assert((a.raw * (n * SCALE)) / (SCALE as int) == a.raw * n) by (nonlinear_arith);
}

} // verus!
