//! Exact decimal fixed-point scalar used by the whole engine.
//!
//! A `Real` holds a value as an integer count of billionths. Every
//! operation is total: results that would leave the representable range
//! saturate at `RAW_MAX` in magnitude, and quotients truncate toward zero.
use vstd::prelude::*;

verus! {

/// Raw units in one whole unit: values carry nine decimal places.
pub const SCALE: i64 = 1_000_000_000;

/// Largest raw magnitude; every result lies in `[-RAW_MAX, RAW_MAX]`.
pub const RAW_MAX: i64 = 9_223_372_036_854_775_807;

/// Raw value of pi, rounded to nine decimal places.
pub const PI_RAW: i64 = 3_141_592_654;

/// Clamps an exact integer result into the representable range.
pub open spec fn clamp(x: int) -> int {
    if x > RAW_MAX {
        RAW_MAX as int
    } else if x < -RAW_MAX {
        -RAW_MAX
    } else {
        x
    }
}

/// `x` lies in the representable range, so that no result saturates.
pub open spec fn fits(x: int) -> bool {
    -RAW_MAX <= x <= RAW_MAX
}

/// Integer quotient truncated toward zero (`b != 0`).
pub open spec fn div_trunc(a: int, b: int) -> int {
    let q = (if a >= 0 { a } else { -a }) / (if b >= 0 { b } else { -b });
    if (a >= 0) == (b >= 0) {
        q
    } else {
        -q
    }
}

/// `r` is the integer square root of `n`.
pub open spec fn is_root(n: int, r: int) -> bool {
    0 <= r && r * r <= n && n < (r + 1) * (r + 1)
}

/// Integer square root of a non-negative integer.
pub open spec fn int_root(n: int) -> int {
    choose|r: int| is_root(n, r)
}

#[derive(Clone, Copy, PartialEq, Eq, Structural, Debug)]
pub struct Real {
    pub raw: i64,
}

impl Real {
    pub open spec fn wrap(x: int) -> Real {
        Real { raw: clamp(x) as i64 }
    }

    pub open spec fn add_spec(self, o: Real) -> Real {
        Real::wrap(self.raw + o.raw)
    }

    pub open spec fn sub_spec(self, o: Real) -> Real {
        Real::wrap(self.raw - o.raw)
    }

    pub open spec fn neg_spec(self) -> Real {
        Real::wrap(-self.raw)
    }

    pub open spec fn mul_spec(self, o: Real) -> Real {
        Real::wrap(div_trunc(self.raw * o.raw, SCALE as int))
    }

    /// Quotient; a zero divisor is not given a meaning.
    pub open spec fn div_spec(self, o: Real) -> Real {
        Real::wrap(div_trunc(self.raw * SCALE, o.raw as int))
    }

    pub open spec fn abs_spec(self) -> Real {
        if self.raw < 0 {
            self.neg_spec()
        } else {
            self
        }
    }

    pub open spec fn min_spec(self, o: Real) -> Real {
        if o.raw < self.raw {
            o
        } else {
            self
        }
    }

    pub open spec fn max_spec(self, o: Real) -> Real {
        if o.raw > self.raw {
            o
        } else {
            self
        }
    }

    /// Square root of a non-negative value, rounded down.
    pub open spec fn sqrt_spec(self) -> Real {
        Real { raw: int_root(self.raw * SCALE) as i64 }
    }

    /// Half of the value, truncated toward zero.
    pub open spec fn half_spec(self) -> Real {
        Real { raw: div_trunc(self.raw as int, 2) as i64 }
    }

    pub fn zero() -> (r: Real)
        ensures
            r.raw == 0,
    {
        Real { raw: 0 }
    }

    /// The whole number `n`.
    pub fn from_int(n: i32) -> (r: Real)
        ensures
            r.raw == n * SCALE,
    {
        proof {
            assert(-2147483648 * 1000000000 <= n * SCALE <= 2147483647 * 1000000000)
                by (nonlinear_arith)
                requires -2147483648 <= n <= 2147483647;
        }
        Real { raw: (n as i64) * SCALE }
    }

    /// The value `n / 1000`.
    pub fn from_milli(n: i32) -> (r: Real)
        ensures
            r.raw == n * 1_000_000,
    {
        proof {
            assert(-2147483648 * 1000000 <= n * 1000000 <= 2147483647 * 1000000)
                by (nonlinear_arith)
                requires -2147483648 <= n <= 2147483647;
        }
        Real { raw: (n as i64) * 1_000_000 }
    }

    fn saturate(x: i128) -> (r: Real)
        ensures
            r == Real::wrap(x as int),
    {
        if x > RAW_MAX as i128 {
            Real { raw: RAW_MAX }
        } else if x < -(RAW_MAX as i128) {
            Real { raw: -RAW_MAX }
        } else {
            Real { raw: x as i64 }
        }
    }

    pub fn add(self, o: Real) -> (r: Real)
        ensures
            r == self.add_spec(o),
    {
        Real::saturate(self.raw as i128 + o.raw as i128)
    }

    pub fn sub(self, o: Real) -> (r: Real)
        ensures
            r == self.sub_spec(o),
    {
        Real::saturate(self.raw as i128 - o.raw as i128)
    }

    pub fn neg(self) -> (r: Real)
        ensures
            r == self.neg_spec(),
    {
        Real::saturate(-(self.raw as i128))
    }

    pub fn mul(self, o: Real) -> (r: Real)
        ensures
            r == self.mul_spec(o),
    {
        let a = self.raw as i128;
        let b = o.raw as i128;
        proof {
            lemma_i64_product(a as int, b as int);
        }
        let p = a * b;
        let q = p / (SCALE as i128);
        Real::saturate(q)
    }

    /// Quotient `self / o`, truncated toward zero.
    pub fn div(self, o: Real) -> (r: Real)
        requires
            o.raw != 0,
        ensures
            r == self.div_spec(o),
    {
        let a = self.raw as i128;
        proof {
            lemma_i64_product(a as int, SCALE as int);
        }
        let p = a * (SCALE as i128);
        let (n, d) = if o.raw < 0 {
            (-p, -(o.raw as i128))
        } else {
            (p, o.raw as i128)
        };
        let q = n / d;
        proof {
            lemma_div_trunc_bound(p as int, o.raw as int);
            assert(q == div_trunc(n as int, d as int));
        }
        Real::saturate(q)
    }

    pub fn abs(self) -> (r: Real)
        ensures
            r == self.abs_spec(),
    {
        if self.raw < 0 {
            self.neg()
        } else {
            self
        }
    }

    pub fn min(self, o: Real) -> (r: Real)
        ensures
            r == self.min_spec(o),
    {
        if o.raw < self.raw {
            o
        } else {
            self
        }
    }

    pub fn max(self, o: Real) -> (r: Real)
        ensures
            r == self.max_spec(o),
    {
        if o.raw > self.raw {
            o
        } else {
            self
        }
    }

    pub fn half(self) -> (r: Real)
        ensures
            r == self.half_spec(),
    {
        Real { raw: self.raw / 2 }
    }

    /// Square root, rounded down to the nearest raw unit.
    pub fn sqrt(self) -> (r: Real)
        requires
            self.raw >= 0,
        ensures
            r == self.sqrt_spec(),
            is_root(self.raw * SCALE, r.raw as int),
    {
        proof {
            lemma_i64_product(self.raw as int, SCALE as int);
        }
        let n: u128 = (self.raw as u128) * (SCALE as u128);
        let mut lo: u128 = 0;
        let mut hi: u128 = 0x1_0000_0000_0000;
        proof {
            assert(n < 0x1_0000_0000_0000 * 0x1_0000_0000_0000) by (nonlinear_arith)
                requires n == self.raw * SCALE, 0 <= self.raw <= RAW_MAX;
        }
        while hi - lo > 1
            invariant
                lo < hi <= 0x1_0000_0000_0000,
                lo * lo <= n,
                n < hi * hi,
            decreases hi - lo,
        {
            let mid = lo + (hi - lo) / 2;
            proof {
                assert(mid * mid <= 0x1_0000_0000_0000 * 0x1_0000_0000_0000) by (nonlinear_arith)
                    requires mid <= 0x1_0000_0000_0000;
            }
            if mid * mid <= n {
                lo = mid;
            } else {
                hi = mid;
            }
        }
        proof {
            assert(hi == lo + 1);
            lemma_root_unique(n as int, lo as int);
        }
        Real { raw: lo as i64 }
    }
}

/// Raw value of two pi, rounded to nine decimal places.
pub const TWO_PI_RAW: i64 = 6_283_185_307;

/// Raw value of half of pi, rounded to nine decimal places.
pub const HALF_PI_RAW: i64 = 1_570_796_327;

/// An angle brought into `[-pi, pi]` by whole turns.
pub open spec fn wrap_turns(a: int) -> int {
    let y = a - div_trunc(a, TWO_PI_RAW as int) * TWO_PI_RAW;
    if y > PI_RAW {
        y - TWO_PI_RAW
    } else if y < -PI_RAW {
        y + TWO_PI_RAW
    } else {
        y
    }
}

/// An angle with the same sine as `a`, in `[-pi/2, pi/2]`.
pub open spec fn sine_arg(a: int) -> int {
    let y = wrap_turns(a);
    if y > HALF_PI_RAW {
        PI_RAW - y
    } else if y < -HALF_PI_RAW {
        -PI_RAW - y
    } else {
        y
    }
}

/// One Horner step of the sine series: `1 - x2 * t / k`.
pub open spec fn series_step(t: Real, x2: Real, k: int) -> Real {
    Real { raw: SCALE }.sub_spec(x2.mul_spec(t).div_spec(Real { raw: (k * SCALE) as i64 }))
}

/// Sine by its Taylor series to the thirteenth power, clamped to `[-1, 1]`.
pub open spec fn sin_spec(a: Real) -> Real {
    let y = Real { raw: sine_arg(a.raw as int) as i64 };
    let x2 = y.mul_spec(y);
    let t = series_step(
        series_step(
            series_step(
                series_step(series_step(series_step(Real { raw: SCALE }, x2, 156), x2, 110), x2, 72),
                x2,
                42,
            ),
            x2,
            20,
        ),
        x2,
        6,
    );
    y.mul_spec(t).max_spec(Real { raw: (-SCALE) as i64 }).min_spec(Real { raw: SCALE })
}

/// Cosine, as the sine of the angle advanced by a quarter turn.
pub open spec fn cos_spec(a: Real) -> Real {
    sin_spec(a.add_spec(Real { raw: HALF_PI_RAW }))
}

fn series_step_exec(t: Real, x2: Real, k: i32) -> (r: Real)
    requires
        0 < k <= 1000,
    ensures
        r == series_step(t, x2, k as int),
{
    Real::from_int(1).sub(x2.mul(t).div(Real::from_int(k)))
}

fn sine_arg_exec(a: Real) -> (r: Real)
    ensures
        r.raw == sine_arg(a.raw as int),
{
    let k = a.raw / TWO_PI_RAW;
    proof {
        lemma_div_trunc_bound(a.raw as int, TWO_PI_RAW as int);
        assert(k == div_trunc(a.raw as int, TWO_PI_RAW as int));
        let m = if a.raw >= 0 { a.raw as int } else { -a.raw };
        assert(0 <= (m / (TWO_PI_RAW as int)) * TWO_PI_RAW <= m) by (nonlinear_arith)
            requires m >= 0;
        assert(m - (m / (TWO_PI_RAW as int)) * TWO_PI_RAW < TWO_PI_RAW) by (nonlinear_arith)
            requires m >= 0;
    }
    let mut y: i64 = a.raw - k * TWO_PI_RAW;
    if y > PI_RAW {
        y = y - TWO_PI_RAW;
    } else if y < -PI_RAW {
        y = y + TWO_PI_RAW;
    }
    if y > HALF_PI_RAW {
        y = PI_RAW - y;
    } else if y < -HALF_PI_RAW {
        y = -PI_RAW - y;
    }
    Real { raw: y }
}

/// Sine of an angle in radians.
pub fn sin(a: Real) -> (r: Real)
    ensures
        r == sin_spec(a),
        -SCALE <= r.raw <= SCALE,
{
    let y = sine_arg_exec(a);
    let x2 = y.mul(y);
    let mut t = Real::from_int(1);
    t = series_step_exec(t, x2, 156);
    t = series_step_exec(t, x2, 110);
    t = series_step_exec(t, x2, 72);
    t = series_step_exec(t, x2, 42);
    t = series_step_exec(t, x2, 20);
    t = series_step_exec(t, x2, 6);
    y.mul(t).max(Real::from_int(-1)).min(Real::from_int(1))
}

/// Cosine of an angle in radians.
pub fn cos(a: Real) -> (r: Real)
    ensures
        r == cos_spec(a),
        -SCALE <= r.raw <= SCALE,
{
    sin(a.add(Real { raw: HALF_PI_RAW }))
}

/// Negation commutes with multiplication.
pub proof fn lemma_mul_neg(a: Real, b: Real)
    requires
        a.raw != i64::MIN,
    ensures
        a.neg_spec().mul_spec(b) == a.mul_spec(b).neg_spec(),
{
    assert((-a.raw) * b.raw == -(a.raw * b.raw)) by (nonlinear_arith);
}

/// A product of non-negative values is non-negative.
pub proof fn lemma_mul_nonneg(a: Real, b: Real)
    requires
        a.raw >= 0,
        b.raw >= 0,
    ensures
        a.mul_spec(b).raw >= 0,
{
    assert(a.raw * b.raw >= 0) by (nonlinear_arith)
        requires a.raw >= 0, b.raw >= 0;
    let p = a.raw * b.raw;
    assert(p / (SCALE as int) >= 0) by (nonlinear_arith)
        requires p >= 0;
}

/// Multiplying by at least one does not shrink a non-negative value.
pub proof fn lemma_mul_grows(x: Real, r: Real)
    requires
        x.raw >= 0,
        r.raw >= SCALE,
    ensures
        x.mul_spec(r).raw >= x.raw,
{
    assert(x.raw * r.raw >= x.raw * SCALE) by (nonlinear_arith)
        requires x.raw >= 0, r.raw >= SCALE;
    let p = x.raw * r.raw;
    assert(p / (SCALE as int) >= x.raw) by (nonlinear_arith)
        requires p >= x.raw * SCALE;
}

/// A value of at least one times a positive value is positive.
pub proof fn lemma_mul_pos(x: Real, d: Real)
    requires
        x.raw >= SCALE,
        d.raw >= 1,
    ensures
        x.mul_spec(d).raw >= 1,
{
    assert(x.raw * d.raw >= SCALE) by (nonlinear_arith)
        requires x.raw >= SCALE, d.raw >= 1;
    let p = x.raw * d.raw;
    assert(p / (SCALE as int) >= 1) by (nonlinear_arith)
        requires p >= SCALE;
}

/// The product of two 64-bit integers fits in 128 bits.
proof fn lemma_i64_product(a: int, b: int)
    requires
        -0x8000_0000_0000_0000 <= a < 0x8000_0000_0000_0000,
        -0x8000_0000_0000_0000 <= b < 0x8000_0000_0000_0000,
    ensures
        -0x4000_0000_0000_0000_0000_0000_0000_0000 <= a * b <= 0x4000_0000_0000_0000_0000_0000_0000_0000,
{
    assert(-0x4000_0000_0000_0000_0000_0000_0000_0000 <= a * b <= 0x4000_0000_0000_0000_0000_0000_0000_0000)
        by (nonlinear_arith)
        requires
            -0x8000_0000_0000_0000 <= a < 0x8000_0000_0000_0000,
            -0x8000_0000_0000_0000 <= b < 0x8000_0000_0000_0000;
}

/// A quotient by a non-zero integer is no larger in magnitude than the dividend.
proof fn lemma_div_trunc_bound(a: int, b: int)
    requires
        b != 0,
    ensures
        -(if a >= 0 { a } else { -a }) <= div_trunc(a, b) <= (if a >= 0 { a } else { -a }),
{
    let m = if a >= 0 { a } else { -a };
    let d = if b >= 0 { b } else { -b };
    assert(0 <= m / d <= m) by (nonlinear_arith)
        requires m >= 0, d >= 1;
}

/// The integer square root is unique.
pub proof fn lemma_root_unique(n: int, r: int)
    requires
        is_root(n, r),
    ensures
        int_root(n) == r,
{
    let s = int_root(n);
    assert(is_root(n, s));
    if s < r {
        assert((s + 1) * (s + 1) <= r * r) by (nonlinear_arith)
            requires 0 <= s, s + 1 <= r;
    } else if r < s {
        assert((r + 1) * (r + 1) <= s * s) by (nonlinear_arith)
            requires 0 <= r, r + 1 <= s;
    }
}

} // verus!
