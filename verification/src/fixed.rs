//! Saturating fixed-point scalars.
//!
//! Every geometric quantity in this crate is a real number represented in
//! fixed point: an `i64` holding the value times `SCALE`. Arithmetic
//! saturates symmetrically at `MAX_FX == i64::MAX` and `-MAX_FX`, and
//! division by zero yields zero, so every operation is total: a degenerate
//! input (a zero-length direction, say) produces a harmless value rather
//! than a fault, and at worst a miscolored pixel.

use vstd::prelude::*;
use vstd::arithmetic::div_mod::lemma_div_is_ordered;
use vstd::arithmetic::div_mod::lemma_div_of0;
use vstd::arithmetic::div_mod::lemma_div_multiples_vanish;
use vstd::arithmetic::div_mod::lemma_multiply_divide_lt;

verus! {

/// One whole unit: the fixed-point representation of 1.
pub const SCALE: i64 = 65536;

/// The saturation bound; values live in `[-MAX_FX, MAX_FX]`.
pub const MAX_FX: i64 = i64::MAX;

/// Clamp a mathematical integer into the symmetric representable range.
pub open spec fn sat(x: int) -> int {
    if x > MAX_FX as int {
        MAX_FX as int
    } else if x < -(MAX_FX as int) {
        -(MAX_FX as int)
    } else {
        x
    }
}

pub open spec fn iabs(n: int) -> int {
    if n >= 0 { n } else { -n }
}

/// Division truncating toward zero (the sign-magnitude quotient),
/// total: a zero divisor yields zero.
pub open spec fn tdiv(n: int, d: int) -> int {
    if d == 0 {
        0
    } else {
        let q = iabs(n) / iabs(d);
        if (n >= 0) == (d > 0) { q } else { -q }
    }
}

pub open spec fn fadd(a: int, b: int) -> int {
    sat(a + b)
}

pub open spec fn fsub(a: int, b: int) -> int {
    sat(a - b)
}

pub open spec fn fneg(a: int) -> int {
    sat(-a)
}

pub open spec fn fmul(a: int, b: int) -> int {
    sat(tdiv(a * b, SCALE as int))
}

pub open spec fn fdiv(a: int, b: int) -> int {
    if b == 0 { 0 } else { sat(tdiv(a * (SCALE as int), b)) }
}

pub open spec fn fmin(a: int, b: int) -> int {
    if a <= b { a } else { b }
}

pub open spec fn fabs(a: int) -> int {
    sat(iabs(a))
}

pub open spec fn fclamp(x: int, lo: int, hi: int) -> int {
    if x < lo { lo } else if x > hi { hi } else { x }
}

/// The integer square root, by halving the number of bits each step.
pub open spec fn isqrt(n: nat) -> nat
    decreases n,
{
    if n == 0 {
        0
    } else {
        let r = 2 * isqrt(n / 4);
        if (r + 1) * (r + 1) <= n { r + 1 } else { r }
    }
}

/// The fixed-point square root: zero on non-positive input (floating
/// point would produce a NaN there; absorbing to zero is the documented
/// degraded behaviour).
pub open spec fn fsqrt(x: int) -> int {
    if x <= 0 { 0 } else { isqrt((x * SCALE) as nat) as int }
}

/// `isqrt(n)` really is the integer square root.
pub proof fn lemma_isqrt_bounds(n: nat)
    ensures
        isqrt(n) * isqrt(n) <= n,
        n < (isqrt(n) + 1) * (isqrt(n) + 1),
    decreases n,
{
    if n == 0 {
        assert(isqrt(n) == 0);
        assert((isqrt(n) + 1) * (isqrt(n) + 1) == 1) by (nonlinear_arith)
            requires isqrt(n) == 0;
    } else {
        let m = n / 4;
        lemma_isqrt_bounds(m);
        let r0 = isqrt(m);
        let r = 2 * r0;
        assert(n == 4 * m + n % 4);
        assert(r * r == 4 * (r0 * r0)) by (nonlinear_arith)
            requires r == 2 * r0;
        assert((r + 2) * (r + 2) == 4 * ((r0 + 1) * (r0 + 1))) by (nonlinear_arith)
            requires r == 2 * r0;
        assert(r * r <= n);
        assert(n < (r + 2) * (r + 2));
        if (r + 1) * (r + 1) <= n {
            assert(isqrt(n) == r + 1);
        } else {
            assert(isqrt(n) == r);
        }
    }
}

/// The integer square root is monotone.
pub proof fn lemma_isqrt_mono(m: nat, n: nat)
    requires
        m <= n,
    ensures
        isqrt(m) <= isqrt(n),
{
    lemma_isqrt_bounds(m);
    lemma_isqrt_bounds(n);
    if isqrt(n) < isqrt(m) {
        assert((isqrt(n) + 1) * (isqrt(n) + 1) <= isqrt(m) * isqrt(m)) by (nonlinear_arith)
            requires isqrt(n) + 1 <= isqrt(m);
        assert(false);
    }
}

/// The integer square root is the unique `r` with `r^2 <= n < (r+1)^2`.
pub proof fn lemma_isqrt_unique(n: nat, r: nat)
    requires
        r * r <= n,
        n < (r + 1) * (r + 1),
    ensures
        r == isqrt(n),
{
    lemma_isqrt_bounds(n);
    let s = isqrt(n);
    if r < s {
        assert((r + 1) * (r + 1) <= s * s) by (nonlinear_arith)
            requires r + 1 <= s;
        assert(false);
    }
    if s < r {
        assert((s + 1) * (s + 1) <= r * r) by (nonlinear_arith)
            requires s + 1 <= r;
        assert(false);
    }
}

/// Zero annihilates a fixed-point product.
pub proof fn lemma_fmul_zero(x: int)
    ensures
        fmul(0, x) == 0,
        fmul(x, 0) == 0,
{
    assert(0 * x == 0 && x * 0 == 0) by (nonlinear_arith);
    lemma_div_of0(SCALE as int);
}

/// Multiplying a representable scalar by one leaves it unchanged, on
/// either side, and so does dividing it by one.
pub proof fn lemma_fmul_one(x: int)
    requires
        sat(x) == x,
    ensures
        fmul(SCALE as int, x) == x,
        fmul(x, SCALE as int) == x,
        fdiv(x, SCALE as int) == x,
{
    assert(x * SCALE as int == SCALE as int * x) by (nonlinear_arith);
    if x >= 0 {
        assert(SCALE as int * x >= 0) by (nonlinear_arith)
            requires x >= 0;
        lemma_div_multiples_vanish(x, SCALE as int);
    } else {
        assert(SCALE as int * x <= 0 && -(SCALE as int * x) == SCALE as int * (-x)) by (nonlinear_arith)
            requires x < 0;
        lemma_div_multiples_vanish(-x, SCALE as int);
    }
}

/// A product with a factor of at most one keeps the other factor as an
/// upper bound, and stays non-negative when both factors are.
pub proof fn lemma_fmul_le(a: int, b: int)
    requires
        0 <= a <= MAX_FX as int,
        0 <= b <= SCALE as int,
    ensures
        0 <= fmul(a, b) <= a,
        fmul(b, a) == fmul(a, b),
{
    assert(0 <= a * b && a * b <= a * 65536 && b * a == a * b) by (nonlinear_arith)
        requires
            0 <= a,
            0 <= b <= 65536;
    lemma_div_is_ordered(a * b, a * 65536, SCALE as int);
    lemma_div_multiples_vanish(a, SCALE as int);
    assert(a * 65536 == 65536 * a) by (nonlinear_arith);
}

/// A product with a factor strictly below one stays strictly below the
/// other, positive, factor.
pub proof fn lemma_fmul_lt(a: int, b: int)
    requires
        0 < a <= MAX_FX as int,
        0 <= b < SCALE as int,
    ensures
        0 <= fmul(a, b) < a,
        fmul(b, a) == fmul(a, b),
{
    assert(0 <= a * b && a * b < 65536 * a && b * a == a * b) by (nonlinear_arith)
        requires
            0 < a,
            0 <= b < 65536;
    lemma_multiply_divide_lt(a * b, SCALE as int, a);
}

/// Truncating division is monotone in the numerator for a positive divisor.
pub proof fn lemma_tdiv_mono(n1: int, n2: int, d: int)
    requires
        d > 0,
        n1 <= n2,
    ensures
        tdiv(n1, d) <= tdiv(n2, d),
{
    if n1 >= 0 {
        lemma_div_is_ordered(n1, n2, d);
    } else if n2 < 0 {
        lemma_div_is_ordered(-n2, -n1, d);
    } else {
        lemma_div_is_ordered(0, -n1, d);
        lemma_div_is_ordered(0, n2, d);
    }
}

/// Saturating fixed-point addition.
pub fn add_fx(a: i64, b: i64) -> (r: i64)
    ensures
        r as int == fadd(a as int, b as int),
{
    let s: i128 = a as i128 + b as i128;
    if s > i64::MAX as i128 {
        i64::MAX
    } else if s < -(i64::MAX as i128) {
        -i64::MAX
    } else {
        s as i64
    }
}

/// Saturating fixed-point subtraction.
pub fn sub_fx(a: i64, b: i64) -> (r: i64)
    ensures
        r as int == fsub(a as int, b as int),
{
    let s: i128 = a as i128 - b as i128;
    if s > i64::MAX as i128 {
        i64::MAX
    } else if s < -(i64::MAX as i128) {
        -i64::MAX
    } else {
        s as i64
    }
}

/// Saturating negation.
pub fn neg_fx(a: i64) -> (r: i64)
    ensures
        r as int == fneg(a as int),
{
    if a == i64::MIN {
        i64::MAX
    } else {
        -a
    }
}

/// The smaller of two scalars.
pub fn min_fx(a: i64, b: i64) -> (r: i64)
    ensures
        r as int == fmin(a as int, b as int),
{
    if a <= b { a } else { b }
}

/// Saturating absolute value.
pub fn abs_fx(a: i64) -> (r: i64)
    ensures
        r as int == fabs(a as int),
{
    if a == i64::MIN {
        i64::MAX
    } else if a < 0 {
        -a
    } else {
        a
    }
}

/// Saturating fixed-point multiplication, truncating toward zero.
pub fn mul_fx(a: i64, b: i64) -> (r: i64)
    ensures
        r as int == fmul(a as int, b as int),
{
    let neg: bool = (a < 0) != (b < 0);
    let ma: u128 = if a < 0 { (-(a as i128)) as u128 } else { a as u128 };
    let mb: u128 = if b < 0 { (-(b as i128)) as u128 } else { b as u128 };
    proof {
        assert(ma * mb == iabs(a as int * b as int) && ma * mb
            <= 0x8000_0000_0000_0000 * 0x8000_0000_0000_0000 && (if neg {
            a as int * b as int <= 0
        } else {
            a as int * b as int >= 0
        })) by (nonlinear_arith)
            requires
                neg == ((a < 0) != (b < 0)),
                ma == iabs(a as int),
                mb == iabs(b as int),
                ma <= 0x8000_0000_0000_0000,
                mb <= 0x8000_0000_0000_0000;
    }
    let q: u128 = (ma * mb) / (SCALE as u128);
    proof {
        let p = a as int * b as int;
        assert(q == iabs(p) / (SCALE as int));
        if iabs(p) == 0 {
            lemma_div_of0(SCALE as int);
        }
        if neg {
            assert(tdiv(p, SCALE as int) == -(q as int));
        } else {
            assert(tdiv(p, SCALE as int) == q as int);
        }
    }
    if neg {
        if q > i64::MAX as u128 {
            -i64::MAX
        } else {
            -(q as i64)
        }
    } else {
        if q > i64::MAX as u128 {
            i64::MAX
        } else {
            q as i64
        }
    }
}

/// Saturating fixed-point division, truncating toward zero;
/// a zero divisor yields zero.
pub fn div_fx(a: i64, b: i64) -> (r: i64)
    ensures
        r as int == fdiv(a as int, b as int),
{
    if b == 0 {
        return 0;
    }
    let neg: bool = (a < 0) != (b < 0);
    let ma: u128 = if a < 0 { (-(a as i128)) as u128 } else { a as u128 };
    let mb: u128 = if b < 0 { (-(b as i128)) as u128 } else { b as u128 };
    proof {
        assert(ma * (SCALE as u128) == iabs(a as int * SCALE as int) && ma * (
        SCALE as u128) <= 0x8000_0000_0000_0000 * 0x10000 && (if neg {
            a as int * SCALE as int >= 0 != (b as int > 0)
        } else {
            (a as int * SCALE as int >= 0) == (b as int > 0)
        })) by (nonlinear_arith)
            requires
                neg == ((a < 0) != (b < 0)),
                b != 0,
                ma == iabs(a as int),
                ma <= 0x8000_0000_0000_0000,
                SCALE == 65536;
    }
    let q: u128 = (ma * (SCALE as u128)) / mb;
    proof {
        let n = a as int * SCALE as int;
        assert(q == iabs(n) / iabs(b as int));
        if iabs(n) == 0 {
            lemma_div_of0(iabs(b as int));
        }
        if neg {
            assert(tdiv(n, b as int) == -(q as int));
        } else {
            assert(tdiv(n, b as int) == q as int);
        }
    }
    if neg {
        if q > i64::MAX as u128 {
            -i64::MAX
        } else {
            -(q as i64)
        }
    } else {
        if q > i64::MAX as u128 {
            i64::MAX
        } else {
            q as i64
        }
    }
}

/// Fixed-point square root by binary search; zero on non-positive input.
pub fn sqrt_fx(x: i64) -> (r: i64)
    ensures
        r as int == fsqrt(x as int),
{
    if x <= 0 {
        return 0;
    }
    proof {
        assert((x as u128) * (SCALE as u128) == x as int * SCALE as int && (
        x as u128) * (SCALE as u128) < 0x1_0000_0000_0000 * 0x1_0000_0000_0000) by (nonlinear_arith)
            requires
                x as u128 == x as int,
                0 < x as int <= 0x8000_0000_0000_0000,
                SCALE as u128 == 65536,
                SCALE as int == 65536;
    }
    let n: u128 = (x as u128) * (SCALE as u128);
    let mut lo: u128 = 0;
    let mut hi: u128 = 0x1_0000_0000_0000;
    while lo + 1 < hi
        invariant
            lo * lo <= n,
            n < hi * hi,
            lo < hi <= 0x1_0000_0000_0000,
        decreases hi - lo,
    {
        let mid: u128 = lo + (hi - lo) / 2;
        proof {
            assert(mid * mid < 0x1_0000_0000_0000_0000_0000_0000) by (nonlinear_arith)
                requires mid < 0x1_0000_0000_0000;
        }
        if mid * mid <= n {
            lo = mid;
        } else {
            hi = mid;
        }
    }
    proof {
        lemma_isqrt_unique(n as nat, lo as nat);
    }
    lo as i64
}

/// Clamp into `[lo, hi]`.
pub fn clamp_fx(x: i64, lo: i64, hi: i64) -> (r: i64)
    requires
        lo <= hi,
    ensures
        r as int == fclamp(x as int, lo as int, hi as int),
{
    if x < lo { lo } else if x > hi { hi } else { x }
}

} // verus!
