//! Fixed-point approximations of the transcendental functions the
//! electrochemistry needs: a decaying exponential, the natural logarithm,
//! the hyperbolic tangent, and the inverse hyperbolic sine. All values are
//! scaled by `SCALE`; every function is pinned exactly to a spec-level
//! mirror of its own integer arithmetic, so callers' contracts compose.
use vstd::prelude::*;

verus! {

use crate::numeric::{div_down, fdiv, isqrt, mul_div, spec_isqrt};
use crate::numeric::{lemma_fdiv_bounds, lemma_fdiv_mono, lemma_fdiv_multiple};
use vstd::arithmetic::div_mod::lemma_div_is_ordered_by_denominator;
use vstd::arithmetic::power2::{lemma2_to64, lemma2_to64_rest, lemma_pow2_adds, lemma_pow2_strictly_increases, pow2};

/// The global fixed-point scale: values carry six decimal places.
pub const SCALE: i64 = 1_000_000;

/// `ln(2)` in `SCALE` units.
pub const LN2_SCALED: i64 = 693_147;

/// `exp(-1)` in `SCALE` units.
pub const INV_E_SCALED: i64 = 367_879;

/// Arguments at or above this make `exp_neg` return zero outright
/// (`exp(-32)` is far below one `SCALE` unit).
pub const EXP_ARG_CAP: i64 = 32_000_000;

/// `exp(-q)` for a whole number `q` of e-foldings, by repeated scaled
/// multiplication with `INV_E_SCALED`.
pub open spec fn spec_inv_e_pow(q: nat) -> int
    decreases q,
{
    if q == 0 {
        SCALE as int
    } else {
        fdiv(spec_inv_e_pow((q - 1) as nat) * INV_E_SCALED, SCALE as int)
    }
}

/// The truncated alternating series for `exp(-t)` on one e-folding,
/// `0 <= t < SCALE`, with every intermediate floored exactly as the
/// executable code floors it.
pub open spec fn spec_exp_frac(t: int) -> int {
    let t2 = fdiv(t * t, SCALE as int);
    let t3 = fdiv(t2 * t, SCALE as int);
    let t4 = fdiv(t3 * t, SCALE as int);
    let t5 = fdiv(t4 * t, SCALE as int);
    let t6 = fdiv(t5 * t, SCALE as int);
    let t7 = fdiv(t6 * t, SCALE as int);
    let t8 = fdiv(t7 * t, SCALE as int);
    let t9 = fdiv(t8 * t, SCALE as int);
    let t10 = fdiv(t9 * t, SCALE as int);
    SCALE - t + fdiv(t2, 2) - fdiv(t3, 6) + fdiv(t4, 24) - fdiv(t5, 120) + fdiv(t6, 720) - fdiv(
        t7,
        5040,
    ) + fdiv(t8, 40320) - fdiv(t9, 362880) + fdiv(t10, 3628800)
}

/// `exp(-w)` in `SCALE` units for `w >= 0`.
pub open spec fn spec_exp_neg(w: int) -> int {
    if w >= EXP_ARG_CAP {
        0
    } else {
        fdiv(
            spec_inv_e_pow((w / (SCALE as int)) as nat) * spec_exp_frac(w % (SCALE as int)),
            SCALE as int,
        )
    }
}

/// The mantissa left over after halving `v` down into `[SCALE, 2*SCALE)`.
pub open spec fn spec_norm_m(v: int) -> int
    decreases v,
{
    if v < 2 * SCALE {
        v
    } else {
        spec_norm_m(fdiv(v, 2))
    }
}

/// The number of halvings taken by `spec_norm_m`.
pub open spec fn spec_norm_k(v: int) -> int
    decreases v,
{
    if v < 2 * SCALE {
        0
    } else {
        1 + spec_norm_k(fdiv(v, 2))
    }
}

/// The truncated odd series `2*(t + t^3/3 + ... + t^13/13)` for
/// `ln((1+x)/(1-x))`, with the executable flooring mirrored exactly.
pub open spec fn spec_ln_series(t: int) -> int {
    let t2 = fdiv(t * t, SCALE as int);
    let t3 = fdiv(t2 * t, SCALE as int);
    let t5 = fdiv(fdiv(t3 * t, SCALE as int) * t, SCALE as int);
    let t7 = fdiv(fdiv(t5 * t, SCALE as int) * t, SCALE as int);
    let t9 = fdiv(fdiv(t7 * t, SCALE as int) * t, SCALE as int);
    let t11 = fdiv(fdiv(t9 * t, SCALE as int) * t, SCALE as int);
    let t13 = fdiv(fdiv(t11 * t, SCALE as int) * t, SCALE as int);
    2 * (t + fdiv(t3, 3) + fdiv(t5, 5) + fdiv(t7, 7) + fdiv(t9, 9) + fdiv(t11, 11) + fdiv(t13, 13))
}

/// `ln(v / SCALE)` in `SCALE` units for `v >= SCALE`: the halving count
/// contributes `k * ln(2)` and the mantissa the odd series above with
/// `t = (m - SCALE) / (m + SCALE)`.
pub open spec fn spec_ln_fixed(v: int) -> int {
    let m = spec_norm_m(v);
    spec_norm_k(v) * LN2_SCALED + spec_ln_series(fdiv((m - SCALE) * SCALE, m + SCALE))
}

/// `tanh(z)` on the nonnegative side, via `(1 - e^{-2z}) / (1 + e^{-2z})`.
pub open spec fn spec_tanh_mag(z: int) -> int {
    let d = if z >= 16_000_000 {
        32_000_000int
    } else {
        2 * z
    };
    let u = spec_exp_neg(d);
    fdiv((SCALE - u) * SCALE, SCALE + u)
}

/// `tanh(z)` in `SCALE` units, extended to negative arguments oddly.
pub open spec fn spec_tanh(z: int) -> int {
    if z < 0 {
        -spec_tanh_mag(-z)
    } else {
        spec_tanh_mag(z)
    }
}

/// `arcsinh(a) = ln(a + sqrt(a^2 + 1))` on the nonnegative side, in
/// `SCALE` units.
pub open spec fn spec_arcsinh_mag(a: int) -> int {
    spec_ln_fixed(a + spec_isqrt(a * a + (SCALE as int) * (SCALE as int)))
}

/// `arcsinh(z)` in `SCALE` units, extended to negative arguments oddly.
pub open spec fn spec_arcsinh(z: int) -> int {
    if z < 0 {
        -spec_arcsinh_mag(-z)
    } else {
        spec_arcsinh_mag(z)
    }
}

/// The logarithm of the fixed-point unit is zero.
pub proof fn lemma_ln_at_scale()
    ensures
        spec_ln_fixed(SCALE as int) == 0,
{
    assert(spec_norm_m(SCALE as int) == SCALE as int);
    assert(spec_norm_k(SCALE as int) == 0);
    assert(((SCALE as int) - SCALE) * SCALE == 0) by (nonlinear_arith);
    assert(fdiv(0, SCALE as int + SCALE) == 0);
    assert(0 * (0 as int) == 0) by (nonlinear_arith);
    assert(spec_ln_series(0) == 0);
    assert(0 * LN2_SCALED == 0) by (nonlinear_arith);
}

/// The inverse hyperbolic sine of zero is zero.
pub proof fn lemma_arcsinh_zero()
    ensures
        spec_arcsinh(0) == 0,
{
    let s = SCALE as int;
    assert(s * s == 1_000_000_000_000) by (nonlinear_arith)
        requires
            s == 1_000_000,
    ;
    assert((s + 1) * (s + 1) == 1_000_002_000_001) by (nonlinear_arith)
        requires
            s == 1_000_000,
    ;
    assert(0 * 0 + s * s == s * s);
    assert(exists|q: int| 0 <= q && #[trigger] (q * q) <= s * s < (q + 1) * (q + 1)) by {
        assert(0 <= s && s * s <= s * s < (s + 1) * (s + 1));
    }
    crate::numeric::lemma_isqrt_unique(s * s, spec_isqrt(s * s), s);
    lemma_ln_at_scale();
}

/// The inverse hyperbolic sine is odd; this is the sign half of its
/// definition, stated once so callers need not unfold it.
pub proof fn lemma_arcsinh_odd(z: int)
    ensures
        spec_arcsinh(-z) == -spec_arcsinh(z),
{
    if z == 0 {
        lemma_arcsinh_zero();
    }
}

/// `exp(-w)` in `SCALE` units: splits `w` into whole e-foldings handled
/// by repeated multiplication and a fractional remainder handled by a
/// truncated Taylor series.
pub fn exp_neg(w: i64) -> (r: i64)
    requires
        0 <= w,
    ensures
        r == spec_exp_neg(w as int),
        0 <= r <= SCALE,
        w == 0 ==> r == SCALE,
{
    if w >= EXP_ARG_CAP {
        return 0;
    }
    let q: u64 = (w as u64) / 1_000_000;
    let f: i64 = ((w as u64) % 1_000_000) as i64;
    let mut p: i64 = SCALE;
    let mut j: u64 = 0;
    #[verifier::loop_isolation(false)]
    while j < q
        invariant
            0 <= j <= q,
            0 <= p <= SCALE,
            p == spec_inv_e_pow(j as nat),
        decreases q - j,
    {
        proof {
            assert(0 <= p * INV_E_SCALED <= SCALE * SCALE) by (nonlinear_arith)
                requires
                    0 <= p <= SCALE,
                    SCALE == 1_000_000,
                    INV_E_SCALED == 367_879,
            ;
            lemma_fdiv_bounds(p * INV_E_SCALED, SCALE as int, 0, SCALE as int);
        }
        p = mul_div(p, INV_E_SCALED, SCALE);
        j = j + 1;
    }
    let ef: i64 = exp_frac(f);
    proof {
        assert(0 <= p * ef <= SCALE * SCALE) by (nonlinear_arith)
            requires
                0 <= p <= SCALE,
                0 <= ef <= SCALE,
                SCALE == 1_000_000,
        ;
        lemma_fdiv_bounds(p * ef, SCALE as int, 0, SCALE as int);
        if w == 0 {
            lemma_fdiv_multiple(SCALE as int, SCALE as int);
        }
    }
    mul_div(p, ef, SCALE)
}

/// One e-folding of the decaying exponential by its truncated Taylor
/// series: `exp(-t)` for `0 <= t < SCALE`.
fn exp_frac(t: i64) -> (r: i64)
    requires
        0 <= t < SCALE,
    ensures
        r == spec_exp_frac(t as int),
        0 <= r <= SCALE,
        t == 0 ==> r == SCALE,
{
    proof {
        lemma_power_chain_bounds(t as int);
    }
    let t2: i64 = mul_div(t, t, SCALE);
    let t3: i64 = mul_div(t2, t, SCALE);
    let t4: i64 = mul_div(t3, t, SCALE);
    let t5: i64 = mul_div(t4, t, SCALE);
    let t6: i64 = mul_div(t5, t, SCALE);
    let t7: i64 = mul_div(t6, t, SCALE);
    let t8: i64 = mul_div(t7, t, SCALE);
    let t9: i64 = mul_div(t8, t, SCALE);
    let t10: i64 = mul_div(t9, t, SCALE);
    let r: i64 = SCALE - t + div_down(t2, 2) - div_down(t3, 6) + div_down(t4, 24) - div_down(
        t5,
        120,
    ) + div_down(t6, 720) - div_down(t7, 5040) + div_down(t8, 40320) - div_down(t9, 362880)
        + div_down(t10, 3628800);
    proof {
        lemma_exp_frac_range(t as int);
    }
    r
}

/// Each successive scaled power of `0 <= t < SCALE` is nonnegative and no
/// larger than the one before it.
proof fn lemma_power_chain_bounds(t: int)
    requires
        0 <= t < SCALE,
    ensures
        ({
            let t2 = fdiv(t * t, SCALE as int);
            let t3 = fdiv(t2 * t, SCALE as int);
            let t4 = fdiv(t3 * t, SCALE as int);
            let t5 = fdiv(t4 * t, SCALE as int);
            let t6 = fdiv(t5 * t, SCALE as int);
            let t7 = fdiv(t6 * t, SCALE as int);
            let t8 = fdiv(t7 * t, SCALE as int);
            let t9 = fdiv(t8 * t, SCALE as int);
            let t10 = fdiv(t9 * t, SCALE as int);
            0 <= t10 <= t9 <= t8 <= t7 <= t6 <= t5 <= t4 <= t3 <= t2 <= t
        }),
{
    let s = SCALE as int;
    let t2 = fdiv(t * t, s);
    lemma_power_step(t, t);
    let t3 = fdiv(t2 * t, s);
    lemma_power_step(t2, t);
    let t4 = fdiv(t3 * t, s);
    lemma_power_step(t3, t);
    let t5 = fdiv(t4 * t, s);
    lemma_power_step(t4, t);
    let t6 = fdiv(t5 * t, s);
    lemma_power_step(t5, t);
    let t7 = fdiv(t6 * t, s);
    lemma_power_step(t6, t);
    let t8 = fdiv(t7 * t, s);
    lemma_power_step(t7, t);
    let t9 = fdiv(t8 * t, s);
    lemma_power_step(t8, t);
    lemma_power_step(t9, t);
}

/// One step of the scaled-power chain: `0 <= floor(a*t/SCALE) <= a` for
/// `0 <= a` and `0 <= t < SCALE`.
proof fn lemma_power_step(a: int, t: int)
    requires
        0 <= a,
        0 <= t < SCALE,
    ensures
        0 <= fdiv(a * t, SCALE as int) <= a,
{
    assert(0 <= a * t && a * t <= a * (SCALE as int)) by (nonlinear_arith)
        requires
            0 <= a,
            0 <= t < SCALE,
    ;
    lemma_fdiv_bounds(a * t, SCALE as int, 0, a);
}

/// The truncated alternating exponential series stays within `[0, SCALE]`.
proof fn lemma_exp_frac_range(t: int)
    requires
        0 <= t < SCALE,
    ensures
        0 <= spec_exp_frac(t) <= SCALE,
        t == 0 ==> spec_exp_frac(t) == SCALE,
{
    let s = SCALE as int;
    lemma_power_chain_bounds(t);
    let t2 = fdiv(t * t, s);
    let t3 = fdiv(t2 * t, s);
    let t4 = fdiv(t3 * t, s);
    let t5 = fdiv(t4 * t, s);
    let t6 = fdiv(t5 * t, s);
    let t7 = fdiv(t6 * t, s);
    let t8 = fdiv(t7 * t, s);
    let t9 = fdiv(t8 * t, s);
    let t10 = fdiv(t9 * t, s);
    // Lower bound: group the series into nonnegative pairs.
    lemma_fdiv_mono(t3, t2, 6);
    lemma_div_is_ordered_by_denominator(t2, 2, 6);
    lemma_fdiv_mono(t5, t4, 120);
    lemma_div_is_ordered_by_denominator(t4, 24, 120);
    lemma_fdiv_mono(t7, t6, 5040);
    lemma_div_is_ordered_by_denominator(t6, 720, 5040);
    lemma_fdiv_mono(t9, t8, 362880);
    lemma_div_is_ordered_by_denominator(t8, 40320, 362880);
    lemma_fdiv_bounds(t10, 3628800, 0, t10);
    // Upper bound: the positive terms are dominated by fractions of `t`.
    lemma_fdiv_mono(t2, t, 2);
    lemma_fdiv_mono(t4, t, 24);
    lemma_fdiv_mono(t6, t, 720);
    lemma_fdiv_mono(t8, t, 40320);
    lemma_fdiv_mono(t10, t, 3628800);
    lemma_div_is_ordered_by_denominator(t, 4, 24);
    lemma_div_is_ordered_by_denominator(t, 8, 720);
    lemma_div_is_ordered_by_denominator(t, 16, 40320);
    lemma_div_is_ordered_by_denominator(t, 32, 3628800);
    assert(fdiv(t, 2) + fdiv(t, 4) + fdiv(t, 8) + fdiv(t, 16) + fdiv(t, 32) <= t);
    assert(fdiv(t3, 6) >= 0 && fdiv(t5, 120) >= 0 && fdiv(t7, 5040) >= 0 && fdiv(t9, 362880)
        >= 0) by {
        lemma_fdiv_bounds(t3, 6, 0, t3);
        lemma_fdiv_bounds(t5, 120, 0, t5);
        lemma_fdiv_bounds(t7, 5040, 0, t7);
        lemma_fdiv_bounds(t9, 362880, 0, t9);
    }
}


/// `ln(v / SCALE)` in `SCALE` units: halve `v` into `[SCALE, 2*SCALE)`,
/// then apply the odd series for `ln((1+x)/(1-x))` to the mantissa.
pub fn ln_fixed(v: i64) -> (r: i64)
    requires
        SCALE <= v <= 2_100_000_000_000_000_000,
    ensures
        r == spec_ln_fixed(v as int),
        0 <= r <= 50_000_000,
        v == SCALE ==> r == 0,
{
    let mut m: u64 = v as u64;
    let mut k: u64 = 0;
    proof {
        lemma2_to64();
        lemma2_to64_rest();
        assert(pow2(0) == 1);
        assert((v as int) * 1 == v as int) by (nonlinear_arith);
    }
    #[verifier::loop_isolation(false)]
    while m >= 2_000_000
        invariant
            1_000_000 <= m <= v as u64,
            k <= 41,
            (m as int) * pow2(k as nat) <= v as int,
            spec_norm_m(v as int) == spec_norm_m(m as int),
            spec_norm_k(v as int) == k + spec_norm_k(m as int),
        decreases m,
    {
        proof {
            // `k` cannot reach 41 while the mantissa is still large.
            if k >= 41 {
                assert(pow2(41) == 0x20000000000);
                if k > 41 {
                    lemma_pow2_strictly_increases(41, k as nat);
                }
                assert((m as int) * pow2(k as nat) >= 2_000_000 * 0x20000000000)
                    by (nonlinear_arith)
                    requires
                        m as int >= 2_000_000,
                        pow2(k as nat) >= 0x20000000000,
                ;
            }
            // Halving the mantissa doubles the weight without overshooting.
            lemma_pow2_adds(1, k as nat);
            assert(pow2(1) == 2);
            let mh = fdiv(m as int, 2);
            assert(mh * (2 * pow2(k as nat)) == (mh * 2) * pow2(k as nat)) by (nonlinear_arith);
            assert((mh * 2) * pow2(k as nat) <= (m as int) * pow2(k as nat)) by (nonlinear_arith)
                requires
                    mh * 2 <= m as int,
                    pow2(k as nat) >= 0,
            ;
        }
        m = m / 2;
        k = k + 1;
    }
    let mi: i64 = m as i64;
    proof {
        assert(spec_norm_m(m as int) == m as int);
        assert(spec_norm_k(m as int) == 0);
        assert((mi - SCALE) * SCALE <= 333_334 * (mi + SCALE)) by (nonlinear_arith)
            requires
                1_000_000 <= mi < 2_000_000,
        ;
        assert(0 * (mi + SCALE) <= (mi - SCALE) * SCALE) by (nonlinear_arith)
            requires
                1_000_000 <= mi,
        ;
        lemma_fdiv_bounds((mi - SCALE) * SCALE, mi + SCALE as int, 0, 333_334);
    }
    let t: i64 = mul_div(mi - SCALE, SCALE, mi + SCALE);
    proof {
        lemma_ln_chain_bounds(t as int);
        lemma_ln_series_range(t as int);
    }
    let t2: i64 = mul_div(t, t, SCALE);
    let t3: i64 = mul_div(t2, t, SCALE);
    let t5: i64 = mul_div(mul_div(t3, t, SCALE), t, SCALE);
    let t7: i64 = mul_div(mul_div(t5, t, SCALE), t, SCALE);
    let t9: i64 = mul_div(mul_div(t7, t, SCALE), t, SCALE);
    let t11: i64 = mul_div(mul_div(t9, t, SCALE), t, SCALE);
    let t13: i64 = mul_div(mul_div(t11, t, SCALE), t, SCALE);
    let series: i64 = 2 * (t + div_down(t3, 3) + div_down(t5, 5) + div_down(t7, 7) + div_down(
        t9,
        9,
    ) + div_down(t11, 11) + div_down(t13, 13));
    let r: i64 = (k as i64) * LN2_SCALED + series;
    proof {
        assert((k as int) * (LN2_SCALED as int) <= 41 * 693_147 && 0 <= (k as int) * (
        LN2_SCALED as int)) by (nonlinear_arith)
            requires
                0 <= k as int <= 41,
                LN2_SCALED == 693_147,
        ;
        if v == SCALE {
            assert(k == 0);
            assert(0 * LN2_SCALED == 0) by (nonlinear_arith);
        }
    }
    r
}

/// Every scaled power in the odd logarithm chain is nonnegative and no
/// larger than `t` itself.
proof fn lemma_ln_chain_bounds(t: int)
    requires
        0 <= t <= 333_334,
    ensures
        ({
            let s = SCALE as int;
            let t2 = fdiv(t * t, s);
            let t3 = fdiv(t2 * t, s);
            let t4 = fdiv(t3 * t, s);
            let t5 = fdiv(t4 * t, s);
            let t6 = fdiv(t5 * t, s);
            let t7 = fdiv(t6 * t, s);
            let t8 = fdiv(t7 * t, s);
            let t9 = fdiv(t8 * t, s);
            let t10 = fdiv(t9 * t, s);
            let t11 = fdiv(t10 * t, s);
            let t12 = fdiv(t11 * t, s);
            let t13 = fdiv(t12 * t, s);
            0 <= t13 <= t && 0 <= t12 <= t && 0 <= t11 <= t && 0 <= t10 <= t && 0 <= t9 <= t && 0
                <= t8 <= t && 0 <= t7 <= t && 0 <= t6 <= t && 0 <= t5 <= t && 0 <= t4 <= t && 0
                <= t3 <= t && 0 <= t2 <= t
        }),
{
    let s = SCALE as int;
    let t2 = fdiv(t * t, s);
    lemma_power_step(t, t);
    let t3 = fdiv(t2 * t, s);
    lemma_power_step(t2, t);
    let t4 = fdiv(t3 * t, s);
    lemma_power_step(t3, t);
    let t5 = fdiv(t4 * t, s);
    lemma_power_step(t4, t);
    let t6 = fdiv(t5 * t, s);
    lemma_power_step(t5, t);
    let t7 = fdiv(t6 * t, s);
    lemma_power_step(t6, t);
    let t8 = fdiv(t7 * t, s);
    lemma_power_step(t7, t);
    let t9 = fdiv(t8 * t, s);
    lemma_power_step(t8, t);
    let t10 = fdiv(t9 * t, s);
    lemma_power_step(t9, t);
    let t11 = fdiv(t10 * t, s);
    lemma_power_step(t10, t);
    let t12 = fdiv(t11 * t, s);
    lemma_power_step(t11, t);
    lemma_power_step(t12, t);
}

/// The odd logarithm series stays within `[0, 14 * t]` for mantissa
/// arguments, and vanishes at zero.
proof fn lemma_ln_series_range(t: int)
    requires
        0 <= t <= 333_334,
    ensures
        0 <= spec_ln_series(t) <= 14 * t,
        t == 0 ==> spec_ln_series(t) == 0,
{
    let s = SCALE as int;
    let t2 = fdiv(t * t, s);
    lemma_power_step(t, t);
    let t3 = fdiv(t2 * t, s);
    lemma_power_step(t2, t);
    let t4 = fdiv(t3 * t, s);
    lemma_power_step(t3, t);
    let t5 = fdiv(t4 * t, s);
    lemma_power_step(t4, t);
    let t6 = fdiv(t5 * t, s);
    lemma_power_step(t5, t);
    let t7 = fdiv(t6 * t, s);
    lemma_power_step(t6, t);
    let t8 = fdiv(t7 * t, s);
    lemma_power_step(t7, t);
    let t9 = fdiv(t8 * t, s);
    lemma_power_step(t8, t);
    let t10 = fdiv(t9 * t, s);
    lemma_power_step(t9, t);
    let t11 = fdiv(t10 * t, s);
    lemma_power_step(t10, t);
    let t12 = fdiv(t11 * t, s);
    lemma_power_step(t11, t);
    lemma_power_step(t12, t);
    let t13 = fdiv(t12 * t, s);
    lemma_fdiv_bounds(t3, 3, 0, t3);
    lemma_fdiv_bounds(t5, 5, 0, t5);
    lemma_fdiv_bounds(t7, 7, 0, t7);
    lemma_fdiv_bounds(t9, 9, 0, t9);
    lemma_fdiv_bounds(t11, 11, 0, t11);
    lemma_fdiv_bounds(t13, 13, 0, t13);
    if t == 0 {
        assert(0 * 0 == 0) by (nonlinear_arith);
    }
}

/// `tanh(z)` on the nonnegative side.
fn tanh_mag(z: i64) -> (r: i64)
    requires
        0 <= z,
    ensures
        r == spec_tanh_mag(z as int),
        0 <= r <= SCALE,
        z == 0 ==> r == 0,
{
    let d: i64 = if z >= 16_000_000 {
        32_000_000
    } else {
        2 * z
    };
    let u: i64 = exp_neg(d);
    proof {
        assert(0 * (SCALE as int + u) <= (SCALE - u) * SCALE) by (nonlinear_arith)
            requires
                0 <= u <= SCALE,
        ;
        assert((SCALE - u) * SCALE <= (SCALE as int) * (SCALE as int + u)) by (nonlinear_arith)
            requires
                0 <= u <= SCALE,
                SCALE == 1_000_000,
        ;
        lemma_fdiv_bounds((SCALE - u) * SCALE, SCALE as int + u, 0, SCALE as int);
        if z == 0 {
            assert(0 * (SCALE as int) == 0) by (nonlinear_arith);
            assert(fdiv(0, SCALE as int + SCALE) == 0);
        }
    }
    mul_div(SCALE - u, SCALE, SCALE + u)
}

/// `tanh(z)` in `SCALE` units, for arguments of either sign.
pub fn tanh_fixed(z: i64) -> (r: i64)
    requires
        -1_000_000_000_000_000_000 <= z <= 1_000_000_000_000_000_000,
    ensures
        r == spec_tanh(z as int),
        -SCALE <= r <= SCALE,
        z == 0 ==> r == 0,
        0 <= z ==> 0 <= r,
        z <= 0 ==> r <= 0,
{
    if z >= 0 {
        tanh_mag(z)
    } else {
        -(tanh_mag(-z))
    }
}

/// `arcsinh(a) = ln(a + sqrt(a^2 + 1))` on the nonnegative side.
fn arcsinh_mag(a: i64) -> (r: i64)
    requires
        0 <= a <= 1_000_000_000_000_000_000,
    ensures
        r == spec_arcsinh_mag(a as int),
        0 <= r <= 50_000_000,
        a == 0 ==> r == 0,
{
    proof {
        assert((a as int) * (a as int) <= 1_000_000_000_000_000_000_000_000_000_000_000_000
            && 0 <= (a as int) * (a as int)) by (nonlinear_arith)
            requires
                0 <= a as int <= 1_000_000_000_000_000_000,
        ;
    }
    let n: u128 = (a as u128) * (a as u128) + 1_000_000_000_000u128;
    let w: u128 = isqrt(n);
    proof {
        if w > 1_000_001_000_000_000_000u128 {
            assert((w as int) * (w as int) > 1_000_002_000_001_000_000_000_000_000_000_000_000)
                by (nonlinear_arith)
                requires
                    w as int > 1_000_001_000_000_000_000,
            ;
        }
        if w as int + 1 <= SCALE as int {
            assert((w as int + 1) * (w as int + 1) <= (SCALE as int) * (SCALE as int))
                by (nonlinear_arith)
                requires
                    0 <= w as int + 1 <= SCALE as int,
            ;
            assert((SCALE as int) * (SCALE as int) == 1_000_000_000_000) by (nonlinear_arith)
                requires
                    SCALE == 1_000_000,
            ;
        }
        if a == 0 {
            assert(0 * 0 == 0) by (nonlinear_arith);
            assert((SCALE as int) * (SCALE as int) == 1_000_000_000_000) by (nonlinear_arith)
                requires
                    SCALE == 1_000_000,
            ;
            if w as int > SCALE as int {
                assert((w as int) * (w as int) > 1_000_000_000_000) by (nonlinear_arith)
                    requires
                        w as int > 1_000_000,
                ;
            }
        }
    }
    let v: i64 = a + (w as i64);
    let r: i64 = ln_fixed(v);
    proof {
        if a == 0 {
            lemma_ln_at_scale();
        }
    }
    r
}

/// The numerically stable inverse hyperbolic sine,
/// `arcsinh(x) = ln(x + sqrt(x^2 + 1))`, in `SCALE` units; odd in its
/// argument and exact at zero.
pub fn arcsinh(z: i64) -> (r: i64)
    requires
        -1_000_000_000_000_000_000 <= z <= 1_000_000_000_000_000_000,
    ensures
        r == spec_arcsinh(z as int),
        -50_000_000 <= r <= 50_000_000,
        z == 0 ==> r == 0,
        0 <= z ==> 0 <= r,
        z <= 0 ==> r <= 0,
{
    if z >= 0 {
        arcsinh_mag(z)
    } else {
        -(arcsinh_mag(-z))
    }
}

} // verus!
