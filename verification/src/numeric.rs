//! Fixed-point arithmetic primitives: flooring division, scaled
//! multiplication, integer square root, saturation, and the arithmetic
//! lemmas about them that the solver and voltage code rely on.
use vstd::prelude::*;

verus! {

use vstd::arithmetic::div_mod::{
    lemma_div_is_ordered, lemma_div_multiples_vanish, lemma_fundamental_div_mod,
    lemma_fundamental_div_mod_converse,
};

/// Mathematical floor division for a positive divisor. Verus's `/` on `int`
/// is Euclidean division, which coincides with flooring when `d > 0`.
pub open spec fn fdiv(n: int, d: int) -> int {
    n / d
}

/// The integer square root as a mathematical function: the unique `r >= 0`
/// with `r * r <= n < (r + 1) * (r + 1)`.
pub open spec fn spec_isqrt(n: int) -> int {
    choose|r: int| 0 <= r && #[trigger] (r * r) <= n < (r + 1) * (r + 1)
}

/// Saturates `x` into the symmetric interval `[-lim, lim]`.
pub open spec fn clip(x: int, lim: int) -> int {
    if x > lim {
        lim
    } else if x < -lim {
        -lim
    } else {
        x
    }
}

/// Flooring division of `n` by a positive divisor `d` (rounds toward
/// negative infinity, unlike Rust's truncating `/`).
pub fn floor_div(n: i128, d: i128) -> (q: i128)
    requires
        0 < d,
        i128::MIN < n,
    ensures
        q == fdiv(n as int, d as int),
{
    if n >= 0 {
        let uq: u128 = (n as u128) / (d as u128);
        proof {
            lemma_div_is_ordered(n as int, i128::MAX as int, d as int);
            lemma_div_is_ordered(0, n as int, d as int);
        }
        uq as i128
    } else {
        let m: u128 = (-n) as u128;
        let uq: u128 = m / (d as u128);
        let ur: u128 = m % (d as u128);
        proof {
            lemma_fundamental_div_mod(m as int, d as int);
            lemma_div_is_ordered(0, m as int, d as int);
            lemma_div_is_ordered(m as int, i128::MAX as int, d as int);
        }
        if ur == 0 {
            proof {
                assert(n as int == (-(uq as int)) * (d as int) + 0) by (nonlinear_arith)
                    requires
                        m as int == (uq as int) * (d as int),
                        n as int == -(m as int),
                ;
                lemma_fundamental_div_mod_converse(n as int, d as int, -(uq as int), 0);
            }
            -(uq as i128)
        } else {
            proof {
                assert(n as int == (-(uq as int) - 1) * (d as int) + ((d as int) - (ur as int)))
                    by (nonlinear_arith)
                    requires
                        m as int == (uq as int) * (d as int) + (ur as int),
                        n as int == -(m as int),
                ;
                lemma_fundamental_div_mod_converse(
                    n as int,
                    d as int,
                    -(uq as int) - 1,
                    (d as int) - (ur as int),
                );
            }
            -(uq as i128) - 1
        }
    }
}

/// `floor(a * b / d)` computed without intermediate overflow; the caller
/// must know the quotient fits an `i64`.
pub fn mul_div(a: i64, b: i64, d: i64) -> (q: i64)
    requires
        0 < d,
        i64::MIN <= fdiv(a * b, d as int) <= i64::MAX,
    ensures
        q == fdiv(a * b, d as int),
{
    proof {
        assert(i128::MIN < (a as int) * (b as int) < i128::MAX) by (nonlinear_arith)
            requires
                i64::MIN <= a <= i64::MAX,
                i64::MIN <= b <= i64::MAX,
        ;
    }
    let q128: i128 = floor_div((a as i128) * (b as i128), d as i128);
    q128 as i64
}

/// Two integer square roots of the same value coincide.
pub proof fn lemma_isqrt_unique(n: int, a: int, b: int)
    requires
        0 <= a,
        0 <= b,
        a * a <= n < (a + 1) * (a + 1),
        b * b <= n < (b + 1) * (b + 1),
    ensures
        a == b,
{
    assert(a == b) by (nonlinear_arith)
        requires
            0 <= a,
            0 <= b,
            a * a <= n < (a + 1) * (a + 1),
            b * b <= n < (b + 1) * (b + 1),
    ;
}

/// Integer square root: the largest `r` with `r * r <= n`.
pub fn isqrt(n: u128) -> (r: u128)
    requires
        n < 0x1000000000000000000000000000000u128,
    ensures
        r * r <= n < (r + 1) * (r + 1),
        r == spec_isqrt(n as int),
{
    if n == 0 {
        proof {
            assert(exists|q: int| 0 <= q && #[trigger] (q * q) <= n < (q + 1) * (q + 1)) by {
                assert(0 <= 0int && 0int * 0int <= n < (0int + 1) * (0int + 1));
            }
            lemma_isqrt_unique(n as int, spec_isqrt(n as int), 0);
        }
        return 0;
    }
    let mut lo: u128 = 0;
    let mut hi: u128 = 0x1000000000000000u128;
    proof {
        assert((0x1000000000000000 as int) * (0x1000000000000000 as int)
            == 0x1000000000000000000000000000000 as int) by (nonlinear_arith);
    }
    while lo + 1 < hi
        invariant
            lo < hi,
            hi <= 0x1000000000000000u128,
            (lo as int) * (lo as int) <= n as int,
            (n as int) < (hi as int) * (hi as int),
        decreases hi - lo,
    {
        let mid: u128 = lo + (hi - lo) / 2;
        proof {
            assert((mid as int) * (mid as int) <= (hi as int) * (hi as int)
                && (hi as int) * (hi as int) <= 0x1000000000000000000000000000000)
                by (nonlinear_arith)
                requires
                    0 <= mid as int <= hi as int,
                    hi as int <= 0x1000000000000000,
            ;
        }
        if mid * mid <= n {
            lo = mid;
        } else {
            hi = mid;
        }
    }
    proof {
        assert(exists|q: int| 0 <= q && #[trigger] (q * q) <= n < (q + 1) * (q + 1)) by {
            assert(0 <= lo as int && (lo as int) * (lo as int) <= n < (lo as int + 1) * (lo as int
                + 1));
        }
        lemma_isqrt_unique(n as int, spec_isqrt(n as int), lo as int);
    }
    lo
}

/// Flooring division by a positive `i64` divisor, staying in `i64`.
pub fn div_down(a: i64, d: i64) -> (q: i64)
    requires
        0 < d,
    ensures
        q == fdiv(a as int, d as int),
{
    proof {
        if a >= 0 {
            assert(a <= a * d) by (nonlinear_arith)
                requires
                    0 <= a,
                    1 <= d,
            ;
            lemma_fdiv_bounds(a as int, d as int, 0, a as int);
        } else {
            assert(a * d <= a) by (nonlinear_arith)
                requires
                    a < 0,
                    1 <= d,
            ;
            lemma_fdiv_bounds(a as int, d as int, a as int, 0);
        }
    }
    let q128: i128 = floor_div(a as i128, d as i128);
    q128 as i64
}

/// Saturates a wide intermediate into `[-lim, lim]` as an `i64`.
pub fn clip_to_i64(x: i128, lim: i64) -> (r: i64)
    requires
        0 < lim,
    ensures
        r == clip(x as int, lim as int),
{
    if x > lim as i128 {
        lim
    } else if x < -(lim as i128) {
        -lim
    } else {
        x as i64
    }
}

/// Flooring division maps a bracketed numerator into the same bracket:
/// if `lo * d <= n <= hi * d` then `lo <= floor(n / d) <= hi`.
pub proof fn lemma_fdiv_bounds(n: int, d: int, lo: int, hi: int)
    requires
        0 < d,
        lo * d <= n,
        n <= hi * d,
    ensures
        lo <= fdiv(n, d) <= hi,
{
    lemma_div_is_ordered(lo * d, n, d);
    lemma_div_is_ordered(n, hi * d, d);
    lemma_div_multiples_vanish(lo, d);
    lemma_div_multiples_vanish(hi, d);
    assert(lo * d == d * lo) by (nonlinear_arith);
    assert(hi * d == d * hi) by (nonlinear_arith);
}

/// Flooring division is monotone in the numerator.
pub proof fn lemma_fdiv_mono(a: int, b: int, d: int)
    requires
        0 < d,
        a <= b,
    ensures
        fdiv(a, d) <= fdiv(b, d),
{
    lemma_div_is_ordered(a, b, d);
}

/// An exact multiple divides back to its factor.
pub proof fn lemma_fdiv_multiple(x: int, d: int)
    requires
        0 < d,
    ensures
        fdiv(x * d, d) == x,
{
    lemma_div_multiples_vanish(x, d);
    assert(x * d == d * x) by (nonlinear_arith);
}

/// A magnitude bound on the numerator gives a magnitude bound on the
/// floored quotient, up to the one unit lost to flooring.
pub proof fn lemma_fdiv_abs(a: int, b: int, d: int)
    requires
        0 < d,
        -b <= a <= b,
        0 <= b,
    ensures
        -(fdiv(b, d) + 1) <= fdiv(a, d) <= fdiv(b, d),
{
    lemma_div_is_ordered(a, b, d);
    lemma_div_is_ordered(-b, a, d);
    lemma_fundamental_div_mod(b, d);
    let q = b / d;
    let r = b % d;
    if r == 0 {
        assert(-b == (-q) * d + 0) by (nonlinear_arith)
            requires
                b == q * d + r,
                r == 0,
        ;
        lemma_fundamental_div_mod_converse(-b, d, -q, 0);
    } else {
        assert(-b == (-q - 1) * d + (d - r)) by (nonlinear_arith)
            requires
                b == q * d + r,
        ;
        lemma_fundamental_div_mod_converse(-b, d, -q - 1, d - r);
    }
}

/// A nonnegative convex combination of three bracketed values, with weights
/// summing to `d`, lands in the bracket scaled by `d`.
pub proof fn lemma_weighted3_bounds(
    w0: int,
    w1: int,
    w2: int,
    a: int,
    b: int,
    c: int,
    lo: int,
    hi: int,
    d: int,
)
    requires
        0 <= w0,
        0 <= w1,
        0 <= w2,
        w0 + w1 + w2 == d,
        0 < d,
        lo <= a <= hi,
        lo <= b <= hi,
        lo <= c <= hi,
    ensures
        lo * d <= w0 * a + w1 * b + w2 * c <= hi * d,
{
    assert(lo * d <= w0 * a + w1 * b + w2 * c <= hi * d) by (nonlinear_arith)
        requires
            0 <= w0,
            0 <= w1,
            0 <= w2,
            w0 + w1 + w2 == d,
            0 < d,
            lo <= a <= hi,
            lo <= b <= hi,
            lo <= c <= hi,
    ;
}

} // verus!
