//! Saturating fixed-point scalars.
//!
//! A scalar is an `i64` counting billionths: the real value `x` is stored as
//! `x * SCALE` truncated toward zero.  Every operation is total: where the
//! mathematical result would leave the `i64` range it saturates to the
//! nearest representable value, which plays the role that infinities play
//! for binary floating point.  Each executable operation has a spec mirror
//! (`fadd_s`, `fmul_s`, ...) that pins its result down exactly.

use vstd::prelude::*;

verus! {

/// Number of fixed-point units in 1.0: one unit is 1e-9.
pub const SCALE: i64 = 1_000_000_000;

/// Absolute value, as a mathematical integer (no saturation).
pub open spec fn abs_s(a: int) -> int {
    if a < 0 { -a } else { a }
}

/// Saturate a mathematical integer into the `i64` range.
pub open spec fn sat_s(x: int) -> int {
    if x > i64::MAX as int {
        i64::MAX as int
    } else if x < i64::MIN as int {
        i64::MIN as int
    } else {
        x
    }
}

/// Division truncating toward zero, as Rust's `/` computes it.
pub open spec fn tdiv_s(a: int, b: int) -> int
    recommends
        b != 0,
{
    if (a >= 0) == (b >= 0) {
        abs_s(a) / abs_s(b)
    } else {
        -(abs_s(a) / abs_s(b))
    }
}

/// Fixed-point addition.
pub open spec fn fadd_s(a: int, b: int) -> int {
    sat_s(a + b)
}

/// Fixed-point subtraction.
pub open spec fn fsub_s(a: int, b: int) -> int {
    sat_s(a - b)
}

/// Fixed-point negation.
pub open spec fn fneg_s(a: int) -> int {
    sat_s(-a)
}

/// Fixed-point multiplication: the product of the real values, truncated
/// toward zero at the ninth decimal digit, saturated into range.
pub open spec fn fmul_s(a: int, b: int) -> int {
    sat_s(tdiv_s(a * b, SCALE as int))
}

/// Fixed-point division.  Division by zero saturates by sign (the analogue
/// of the infinities that real division would produce), with 0/0 == 0.
pub open spec fn fdiv_s(a: int, b: int) -> int {
    if b == 0 {
        if a > 0 {
            i64::MAX as int
        } else if a < 0 {
            i64::MIN as int
        } else {
            0
        }
    } else {
        sat_s(tdiv_s(a * SCALE as int, b))
    }
}

/// Fixed-point absolute value, saturating (the magnitude of the most
/// negative scalar is not representable).
pub open spec fn fabs_s(a: int) -> int {
    sat_s(abs_s(a))
}

/// The lesser of two scalars.
pub open spec fn fmin_s(a: int, b: int) -> int {
    if a < b { a } else { b }
}

/// Integer square root by unary recursion: the largest `r` with `r * r <= n`.
pub open spec fn isqrt_s(n: nat) -> nat
    decreases n,
{
    if n == 0 {
        0
    } else {
        let r = isqrt_s((n - 1) as nat);
        if (r + 1) * (r + 1) <= n {
            r + 1
        } else {
            r
        }
    }
}

/// Fixed-point square root: `sqrt(a)` in units, truncated.  A negative
/// argument yields 0 (the original formulas only take roots of clamped
/// non-negative quantities).
pub open spec fn fsqrt_s(a: int) -> int {
    if a <= 0 {
        0
    } else {
        isqrt_s((a * SCALE as int) as nat) as int
    }
}

/// Squaring is monotone on the naturals.
proof fn lemma_sq_le(a: nat, b: nat)
    requires
        a <= b,
    ensures
        a * a <= b * b,
{
    assert(a * a <= b * b) by (nonlinear_arith)
        requires
            0 <= a <= b;
}

proof fn lemma_isqrt_bounds(n: nat)
    ensures
        isqrt_s(n) * isqrt_s(n) <= n,
        n < (isqrt_s(n) + 1) * (isqrt_s(n) + 1),
    decreases n,
{
    if n == 0 {
        assert(isqrt_s(n) == 0);
        assert((0nat + 1) * (0nat + 1) == 1) by (nonlinear_arith);
    } else {
        lemma_isqrt_bounds((n - 1) as nat);
        let r = isqrt_s((n - 1) as nat);
        assert(r * r <= n - 1 && ((n - 1) as nat) < (r + 1) * (r + 1));
        if (r + 1) * (r + 1) <= n {
            assert(isqrt_s(n) == r + 1);
            assert(n < (r + 2) * (r + 2)) by (nonlinear_arith)
                requires
                    n <= (r + 1) * (r + 1),
                    r >= 0;
        } else {
            assert(isqrt_s(n) == r);
        }
    }
}

proof fn lemma_isqrt_unique(n: nat, r: nat)
    requires
        r * r <= n,
        n < (r + 1) * (r + 1),
    ensures
        r == isqrt_s(n),
{
    lemma_isqrt_bounds(n);
    let q = isqrt_s(n);
    if r < q {
        lemma_sq_le(r + 1, q);
    }
    if q < r {
        lemma_sq_le(q + 1, r);
    }
}

/// The square root's characterization: for a positive argument it is
/// the unique integer whose square is at most `a * SCALE` while the
/// next square is beyond it.
pub proof fn lemma_fsqrt_bounds(a: int)
    requires
        a > 0,
    ensures
        fsqrt_s(a) >= 0,
        fsqrt_s(a) * fsqrt_s(a) <= a * SCALE as int,
        (fsqrt_s(a) + 1) * (fsqrt_s(a) + 1) > a * SCALE as int,
{
    assert(a * SCALE as int > 0) by (nonlinear_arith)
        requires
            a > 0,
            SCALE as int == 1_000_000_000;
    lemma_isqrt_bounds((a * SCALE as int) as nat);
}

/// Truncating division is monotone in the dividend, for a positive
/// divisor.
pub proof fn lemma_tdiv_monotone(x: int, y: int, b: int)
    requires
        x <= y,
        b > 0,
    ensures
        tdiv_s(x, b) <= tdiv_s(y, b),
{
    if x >= 0 {
        vstd::arithmetic::div_mod::lemma_div_is_ordered(x, y, b);
    } else if y >= 0 {
        vstd::arithmetic::div_mod::lemma_div_pos_is_pos(-x, b);
        vstd::arithmetic::div_mod::lemma_div_pos_is_pos(y, b);
    } else {
        vstd::arithmetic::div_mod::lemma_div_is_ordered(-y, -x, b);
    }
}

/// Fixed-point division is monotone in the dividend, for a positive
/// divisor.
pub proof fn lemma_fdiv_monotone(x: int, y: int, b: int)
    requires
        x <= y,
        b > 0,
    ensures
        fdiv_s(x, b) <= fdiv_s(y, b),
{
    lemma_tdiv_monotone(x * SCALE as int, y * SCALE as int, b);
}

/// Saturate an `i128` intermediate into the `i64` range.
fn sat128(x: i128) -> (r: i64)
    ensures
        r as int == sat_s(x as int),
{
    if x > i64::MAX as i128 {
        i64::MAX
    } else if x < i64::MIN as i128 {
        i64::MIN
    } else {
        x as i64
    }
}

/// `i128` division truncating toward zero, written over non-negative
/// operands so that its result agrees with the truncating spec.
fn tdiv128(a: i128, b: i128) -> (r: i128)
    requires
        b != 0,
        a != i128::MIN,
        b != i128::MIN,
    ensures
        r as int == tdiv_s(a as int, b as int),
{
    let an: i128 = if a < 0 { -a } else { a };
    let bn: i128 = if b < 0 { -b } else { b };
    let q: i128 = an / bn;
    assert(0 <= q <= an) by (nonlinear_arith)
        requires
            an >= 0,
            bn > 0,
            q == an as int / bn as int;
    if (a < 0) != (b < 0) {
        -q
    } else {
        q
    }
}

/// Fixed-point addition, saturating.
pub fn fadd(a: i64, b: i64) -> (r: i64)
    ensures
        r as int == fadd_s(a as int, b as int),
{
    sat128(a as i128 + b as i128)
}

/// Fixed-point subtraction, saturating.
pub fn fsub(a: i64, b: i64) -> (r: i64)
    ensures
        r as int == fsub_s(a as int, b as int),
{
    sat128(a as i128 - b as i128)
}

/// Fixed-point negation, saturating.
pub fn fneg(a: i64) -> (r: i64)
    ensures
        r as int == fneg_s(a as int),
{
    sat128(-(a as i128))
}

/// Fixed-point multiplication, saturating.
pub fn fmul(a: i64, b: i64) -> (r: i64)
    ensures
        r as int == fmul_s(a as int, b as int),
{
    proof {
        assert(i128::MIN < (a as int) * (b as int) < i128::MAX) by (nonlinear_arith)
            requires
                -0x8000000000000000 <= a as int <= 0x7fffffffffffffff,
                -0x8000000000000000 <= b as int <= 0x7fffffffffffffff;
    }
    let p: i128 = (a as i128) * (b as i128);
    sat128(tdiv128(p, SCALE as i128))
}

/// Fixed-point division, saturating; division by zero saturates by sign.
pub fn fdiv(a: i64, b: i64) -> (r: i64)
    ensures
        r as int == fdiv_s(a as int, b as int),
{
    if b == 0 {
        if a > 0 {
            i64::MAX
        } else if a < 0 {
            i64::MIN
        } else {
            0
        }
    } else {
        proof {
            assert(i128::MIN < (a as int) * (SCALE as int) < i128::MAX) by (nonlinear_arith)
                requires
                    -0x8000000000000000 <= a as int <= 0x7fffffffffffffff,
                    SCALE as int == 1_000_000_000;
        }
        let p: i128 = (a as i128) * (SCALE as i128);
        sat128(tdiv128(p, b as i128))
    }
}

/// Fixed-point absolute value, saturating.
pub fn fabs(a: i64) -> (r: i64)
    ensures
        r as int == fabs_s(a as int),
{
    if a < 0 {
        sat128(-(a as i128))
    } else {
        a
    }
}

/// The lesser of two scalars.
pub fn fmin(a: i64, b: i64) -> (r: i64)
    ensures
        r as int == fmin_s(a as int, b as int),
{
    if a < b { a } else { b }
}

/// Integer square root of a (bounded) `u128` by binary search.
fn isqrt128(n: u128) -> (r: u128)
    requires
        n < 1329227995784915872903807060280344576,  // 2^120
    ensures
        r as nat == isqrt_s(n as nat),
{
    if n == 0 {
        proof {
            assert((0nat + 1) * (0nat + 1) == 1) by (nonlinear_arith);
            lemma_isqrt_unique(0, 0);
        }
        return 0;
    }
    let mut lo: u128 = 0;
    let mut hi: u128 = 1152921504606846976;  // 2^60
    proof {
        assert(1152921504606846976int * 1152921504606846976int
            == 1329227995784915872903807060280344576int) by (nonlinear_arith);
    }
    while lo + 1 < hi
        invariant
            lo < hi,
            hi <= 1152921504606846976,
            lo * lo <= n,
            n < hi * hi,
        decreases hi - lo,
    {
        let mid: u128 = lo + (hi - lo) / 2;
        proof {
            assert((mid as int) * (mid as int) <= 1152921504606846976int * 1152921504606846976int)
                by (nonlinear_arith)
                requires
                    0 <= mid as int <= 1152921504606846976int;
        }
        if mid * mid <= n {
            lo = mid;
        } else {
            hi = mid;
        }
    }
    proof {
        lemma_sq_le(hi as nat, (lo + 1) as nat);
        assert(n < (lo + 1) * (lo + 1));
        lemma_isqrt_unique(n as nat, lo as nat);
    }
    lo
}

/// Fixed-point square root, truncating; non-positive arguments yield 0.
pub fn fsqrt(a: i64) -> (r: i64)
    ensures
        r as int == fsqrt_s(a as int),
{
    if a <= 0 {
        return 0;
    }
    proof {
        assert((a as int) * (SCALE as int) < 1329227995784915872903807060280344576int)
            by (nonlinear_arith)
            requires
                0 < a as int <= 0x7fffffffffffffff,
                SCALE as int == 1_000_000_000;
    }
    let n: u128 = (a as u128) * (SCALE as u128);
    let r = isqrt128(n);
    proof {
        lemma_isqrt_bounds(n as nat);
        if r as int >= 0x7fffffffffffffff {
            lemma_sq_le(0x7fffffffffffffff, r as nat);
            assert(false);
        }
    }
    r as i64
}

} // verus!
