//! Fixed-point arithmetic primitives shared by the filter bank and the
//! note scale: scaling constants, truncating division, an exact integer
//! square root, and a polynomial cosine.

use vstd::prelude::*;

verus! {

/// Scale of amplitudes and frequencies: 1.0 is represented as `AMP_ONE`.
pub const AMP_ONE: i64 = 65536;

/// Scale of trigonometric values and ratios: 1.0 is represented as `TRIG_ONE`.
pub const TRIG_ONE: i64 = 1073741824;

/// The floor of the nonnegative square root.
pub open spec fn sqrt_floor(x: nat) -> nat
    decreases x,
{
    if x == 0 {
        0
    } else {
        let p = sqrt_floor((x - 1) as nat);
        if (p + 1) * (p + 1) <= x {
            p + 1
        } else {
            p
        }
    }
}

/// `sqrt_floor(x)` is the unique `r` with `r * r <= x < (r + 1) * (r + 1)`.
pub proof fn lemma_sqrt_floor_bounds(x: nat)
    ensures
        sqrt_floor(x) * sqrt_floor(x) <= x,
        x < (sqrt_floor(x) + 1) * (sqrt_floor(x) + 1),
    decreases x,
{
    if x > 0 {
        lemma_sqrt_floor_bounds((x - 1) as nat);
        let p = sqrt_floor((x - 1) as nat);
        if (p + 1) * (p + 1) <= x {
            assert(sqrt_floor(x) == p + 1);
            assert(x < (p + 1 + 1) * (p + 1 + 1)) by (nonlinear_arith)
                requires
                    x - 1 < (p + 1) * (p + 1),
            ;
        } else {
            assert(sqrt_floor(x) == p);
        }
    } else {
        let s = sqrt_floor(x);
        assert(s * s <= x && x < (s + 1) * (s + 1)) by (nonlinear_arith)
            requires
                x == 0,
                s == 0,
        ;
    }
}

/// Any `r` within the square-root bracket of `x` equals `sqrt_floor(x)`.
pub proof fn lemma_sqrt_floor_unique(x: nat, r: nat)
    requires
        r * r <= x,
        x < (r + 1) * (r + 1),
    ensures
        r == sqrt_floor(x),
{
    lemma_sqrt_floor_bounds(x);
    let s = sqrt_floor(x);
    assert(r == s) by (nonlinear_arith)
        requires
            r * r <= x,
            x < (r + 1) * (r + 1),
            s * s <= x,
            x < (s + 1) * (s + 1),
    ;
}

/// Exact integer square root by bisection.
pub fn isqrt(x: u128) -> (r: u64)
    requires
        x < 0x40000000000000000000000000000000u128,
    ensures
        r == sqrt_floor(x as nat),
{
    let mut lo: u64 = 0;
    let mut hi: u64 = 0x8000000000000000u64;
    while hi - lo > 1
        invariant
            lo < hi,
            hi <= 0x8000000000000000u64,
            (lo as nat) * (lo as nat) <= x as nat,
            (x as nat) < (hi as nat) * (hi as nat),
        decreases hi - lo,
    {
        let mid: u64 = lo + (hi - lo) / 2;
        proof {
            assert((mid as nat) * (mid as nat) < 0x40000000000000000000000000000000)
                by (nonlinear_arith)
                requires
                    mid < 0x8000000000000000u64,
            ;
        }
        if (mid as u128) * (mid as u128) <= x {
            lo = mid;
        } else {
            hi = mid;
        }
    }
    proof {
        lemma_sqrt_floor_unique(x as nat, lo as nat);
    }
    lo
}

/// Truncating (round toward zero) division of a signed value by a positive
/// divisor, as the hardware performs it.
pub open spec fn div_trunc(a: int, d: int) -> int {
    if a >= 0 {
        a / d
    } else {
        -((-a) / d)
    }
}

/// Truncating division for `i128`, matching `div_trunc`.
pub fn div_trunc_i128(a: i128, d: i128) -> (r: i128)
    requires
        d > 0,
        a > i128::MIN,
    ensures
        r == div_trunc(a as int, d as int),
        a >= 0 ==> 0 <= r <= a,
        a < 0 ==> a <= r <= 0,
{
    if a >= 0 {
        proof {
            vstd::arithmetic::div_mod::lemma_div_nonincreasing(a as int, d as int);
            vstd::arithmetic::div_mod::lemma_div_pos_is_pos(a as int, d as int);
        }
        a / d
    } else {
        let n: i128 = -a;
        proof {
            vstd::arithmetic::div_mod::lemma_div_nonincreasing(n as int, d as int);
            vstd::arithmetic::div_mod::lemma_div_pos_is_pos(n as int, d as int);
        }
        -(n / d)
    }
}

/// 2π at the trigonometric scale (rounded down).
pub const TWO_PI_Q30: i64 = 6746518852;

/// π at the trigonometric scale; `TWO_PI_Q30` is exactly twice this.
pub const PI_Q30: i64 = 3373259426;

/// π/2 at the trigonometric scale; `PI_Q30` is exactly twice this.
pub const HALF_PI_Q30: i64 = 1686629713;

/// Largest value `(y * y) / TRIG_ONE` takes for `0 <= y <= HALF_PI_Q30`.
pub const SQUARED_ARG_MAX: i64 = 2649351757;

/// One step of the alternating cosine series at the trigonometric scale:
/// the next term magnitude `t * y2 / ((2n - 1) * 2n)`.
pub open spec fn taylor_step(t: int, y2: int, n: int) -> int {
    ((t * y2) / (TRIG_ONE as int)) / ((2 * n - 1) * (2 * n))
}

/// Term magnitude and partial sum of the cosine series after `n` steps,
/// both at the trigonometric scale.
pub open spec fn taylor_pair(y2: int, n: nat) -> (int, int)
    decreases n,
{
    if n == 0 {
        (TRIG_ONE as int, TRIG_ONE as int)
    } else {
        let prev = taylor_pair(y2, (n - 1) as nat);
        let t = taylor_step(prev.0, y2, n as int);
        if n % 2 == 1 {
            (t, prev.1 - t)
        } else {
            (t, prev.1 + t)
        }
    }
}

/// Bounds on the series state, for any argument a quarter period admits.
pub proof fn lemma_taylor_bounds(y2: int, n: nat)
    requires
        0 <= y2 <= SQUARED_ARG_MAX,
    ensures
        0 <= taylor_pair(y2, n).0,
        n == 0 ==> taylor_pair(y2, n).0 == TRIG_ONE,
        n >= 1 ==> taylor_pair(y2, n).0 <= 2 * TRIG_ONE,
        -(2 * n + 1) * TRIG_ONE <= taylor_pair(y2, n).1 <= (2 * n + 1) * TRIG_ONE,
    decreases n,
{
    if n >= 1 {
        lemma_taylor_bounds(y2, (n - 1) as nat);
        let prev = taylor_pair(y2, (n - 1) as nat);
        let d = (2 * n as int - 1) * (2 * n as int);
        let t = taylor_step(prev.0, y2, n as int);
        if n == 1 {
            assert(d == 2) by (nonlinear_arith)
                requires
                    d == (2 * n as int - 1) * (2 * n as int),
                    n == 1,
            ;
            assert(0 <= t <= 2 * TRIG_ONE) by (nonlinear_arith)
                requires
                    t == ((prev.0 * y2) / (TRIG_ONE as int)) / d,
                    prev.0 == TRIG_ONE,
                    d == 2,
                    0 <= y2 <= SQUARED_ARG_MAX,
            ;
        } else {
            assert(d >= 12) by (nonlinear_arith)
                requires
                    n >= 2,
                    d == (2 * n as int - 1) * (2 * n as int),
            ;
            assert(0 <= t <= 2 * TRIG_ONE) by (nonlinear_arith)
                requires
                    t == ((prev.0 * y2) / (TRIG_ONE as int)) / d,
                    0 <= prev.0 <= 2 * TRIG_ONE,
                    d >= 12,
                    0 <= y2 <= SQUARED_ARG_MAX,
            ;
        }
        assert(-(2 * n + 1) * TRIG_ONE <= taylor_pair(y2, n).1 <= (2 * n + 1) * TRIG_ONE)
            by (nonlinear_arith)
            requires
                taylor_pair(y2, n).1 == prev.1 - t || taylor_pair(y2, n).1 == prev.1 + t,
                -(2 * (n - 1) + 1) * TRIG_ONE <= prev.1 <= (2 * (n - 1) + 1) * TRIG_ONE,
                0 <= t <= 2 * TRIG_ONE,
                n >= 1,
        ;
    }
}

/// Cosine over a quarter period, `0 <= y <= HALF_PI_Q30`, at the
/// trigonometric scale, clamped into `[-TRIG_ONE, TRIG_ONE]`.
pub open spec fn quarter_cos(y: int) -> int {
    let y2 = (y * y) / (TRIG_ONE as int);
    clamp_spec(taylor_pair(y2, 7).1, -TRIG_ONE as int, TRIG_ONE as int)
}

/// Cosine of an angle in `[0, TWO_PI_Q30]`, at the trigonometric scale.
pub open spec fn spec_cos_q30(x: int) -> int {
    let folded = if x > PI_Q30 { TWO_PI_Q30 - x } else { x };
    if folded > HALF_PI_Q30 {
        -quarter_cos(PI_Q30 - folded)
    } else {
        quarter_cos(folded)
    }
}

/// Cosine of a fixed-point angle, by folding into a quarter period and
/// summing the alternating series there.
pub fn cos_q30(x: i64) -> (r: i64)
    requires
        0 <= x <= TWO_PI_Q30,
    ensures
        r == spec_cos_q30(x as int),
        -TRIG_ONE <= r <= TRIG_ONE,
{
    let folded: i64 = if x > PI_Q30 { TWO_PI_Q30 - x } else { x };
    let neg: bool = folded > HALF_PI_Q30;
    let y: i64 = if neg { PI_Q30 - folded } else { folded };
    assert(0 <= y <= HALF_PI_Q30);
    proof {
        assert(0 <= (y as int) * (y as int) <= (HALF_PI_Q30 as int) * (HALF_PI_Q30 as int))
            by (nonlinear_arith)
            requires
                0 <= y <= HALF_PI_Q30,
        ;
    }
    let y2_wide: i128 = ((y as i128) * (y as i128)) / (TRIG_ONE as i128);
    proof {
        assert(0 <= y2_wide <= SQUARED_ARG_MAX) by (nonlinear_arith)
            requires
                y2_wide == ((y as int) * (y as int)) / (TRIG_ONE as int),
                0 <= y <= HALF_PI_Q30,
        ;
    }
    let y2: i128 = y2_wide;
    let mut term: i128 = TRIG_ONE as i128;
    let mut acc: i128 = TRIG_ONE as i128;
    let mut n: usize = 1;
    while n <= 7
        invariant
            1 <= n <= 8,
            0 <= y2 <= SQUARED_ARG_MAX,
            term == taylor_pair(y2 as int, (n - 1) as nat).0,
            acc == taylor_pair(y2 as int, (n - 1) as nat).1,
        decreases 8 - n,
    {
        proof {
            lemma_taylor_bounds(y2 as int, (n - 1) as nat);
            assert(0 <= term <= 2 * TRIG_ONE);
            assert(0 <= term * y2 <= 4 * (TRIG_ONE as int) * SQUARED_ARG_MAX)
                by (nonlinear_arith)
                requires
                    0 <= term <= 2 * TRIG_ONE,
                    0 <= y2 <= SQUARED_ARG_MAX,
            ;
        }
        let two_n: i128 = (2 * n) as i128;
        proof {
            assert(0 < (two_n - 1) * two_n <= 182) by (nonlinear_arith)
                requires
                    2 <= two_n <= 14,
            ;
        }
        let d: i128 = (two_n - 1) * two_n;
        term = ((term * y2) / (TRIG_ONE as i128)) / d;
        if n % 2 == 1 {
            acc = acc - term;
        } else {
            acc = acc + term;
        }
        n += 1;
    }
    proof {
        lemma_taylor_bounds(y2 as int, 7);
    }
    let c: i128 = clamp_i128(acc, -(TRIG_ONE as i128), TRIG_ONE as i128);
    let c64: i64 = c as i64;
    if neg {
        -c64
    } else {
        c64
    }
}

/// Clamp a value into `[lo, hi]`.
pub open spec fn clamp_spec(v: int, lo: int, hi: int) -> int {
    if v < lo {
        lo
    } else if v > hi {
        hi
    } else {
        v
    }
}

/// Clamp an `i128` into an inclusive range.
pub fn clamp_i128(v: i128, lo: i128, hi: i128) -> (r: i128)
    requires
        lo <= hi,
    ensures
        r == clamp_spec(v as int, lo as int, hi as int),
{
    if v < lo {
        lo
    } else if v > hi {
        hi
    } else {
        v
    }
}

} // verus!
