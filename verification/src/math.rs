//! Numerical methods: the explicit (FTCS) diffusion integrators for planar
//! and spherical geometry, the stability oracle, and the lemmas stating the
//! qualitative behaviour of one integration step.
//!
//! A concentration field is a `Vec<i64>` of scaled concentrations. The
//! continuous update `c += D*dt*(d2c/dx2 + ...)` is re-parameterized for
//! integer arithmetic: the caller passes the dimensionless mesh ratio
//! `r = D*dt/dx^2` as a fraction `rn / rd`, and the boundary-flux term
//! `s = floor(dt * flux / dx)` already converted into concentration units
//! per step. Every node update is the exact floor of the real-valued FTCS
//! update, which the spec functions below mirror node by node.
use vstd::prelude::*;

verus! {

use crate::numeric::{fdiv, floor_div, lemma_fdiv_bounds, lemma_weighted3_bounds};

/// Largest node magnitude (in concentration units) the integrators accept.
pub const CONC_LIMIT: i64 = 4_000_000_000_000_000_000;

/// Largest magnitude of the per-step boundary-flux term `s`.
pub const FLUX_STEP_LIMIT: i64 = 1_000_000_000_000;

/// Largest mesh-ratio denominator `rd` the integrators accept.
pub const MESH_DEN_LIMIT: u64 = 1_000_000_000_000_000;

/// Largest spherical field length the integrator accepts.
pub const RADIAL_NODES_LIMIT: usize = 4096;

/// A concentration field as a sequence of unbounded integers.
pub open spec fn to_ints(s: Seq<i64>) -> Seq<int> {
    s.map(|_i: int, v: i64| v as int)
}

/// The FTCS stability bound `dt <= dx^2 / (2*alpha)` written over the unit
/// conventions of this crate (`dt` in ms, `dx` in nm, `alpha` in nm^2/s):
/// `2*alpha*dt <= 1000*dx*dx`.
pub open spec fn spec_ftcs_stable(dt: int, dx: int, alpha: int) -> bool {
    2 * alpha * dt <= 1000 * dx * dx
}

/// One planar FTCS node update over the pre-step field `y`. Node 0 loses
/// `s` concentration units to the left boundary flux, node `n-1` gains `s`
/// from the right one, and interior nodes take the central-difference
/// Laplacian; each is the exact floor of the real-valued update.
pub open spec fn linear_node(y: Seq<int>, rn: int, rd: int, s: int, i: int) -> int {
    let n = y.len() as int;
    if i == 0 {
        fdiv(y[0] * rd + rn * (y[1] - y[0]) - s * rd, rd)
    } else if i == n - 1 {
        fdiv(y[n - 1] * rd + rn * (y[n - 2] - y[n - 1]) + s * rd, rd)
    } else {
        fdiv(y[i] * rd + rn * (y[i - 1] - 2 * y[i] + y[i + 1]), rd)
    }
}

/// The whole planar field after one FTCS step.
pub open spec fn linear_stepped(y: Seq<int>, rn: int, rd: int, s: int) -> Seq<int> {
    Seq::new(y.len(), |i: int| linear_node(y, rn, rd, s, i))
}

/// One spherical FTCS node update over the pre-step field `y`. Node 0 is
/// the particle centre (zero-slope ghost point, no curvature term); node
/// `n-1` is the surface, which loses `s*(n+2)/n` to the outgoing flux `s`
/// (the `2/n` part is the curvature term evaluated at the true radius
/// `n*dr`); interior node `i` sits at radius `i*dr` and adds the curvature
/// term `(2/(i*dr)) * dc/dr`.
pub open spec fn radial_node(y: Seq<int>, rn: int, rd: int, s: int, i: int) -> int {
    let n = y.len() as int;
    if i == 0 {
        fdiv(y[0] * rd + rn * (y[1] - y[0]), rd)
    } else if i == n - 1 {
        fdiv(y[n - 1] * rd * n + rn * n * (y[n - 2] - y[n - 1]) - s * rd * (n + 2), rd * n)
    } else {
        fdiv(
            y[i] * rd * i + rn * i * (y[i - 1] - 2 * y[i] + y[i + 1]) + rn * (y[i + 1] - y[i - 1]),
            rd * i,
        )
    }
}

/// The whole radial field after one FTCS step.
pub open spec fn radial_stepped(y: Seq<int>, rn: int, rd: int, s: int) -> Seq<int> {
    Seq::new(y.len(), |i: int| radial_node(y, rn, rd, s, i))
}

/// Whether one explicit FTCS step is numerically stable for a domain with
/// grid step `dx` (nm) and diffusivity `alpha` (nm^2/s) at timestep `dt`
/// (ms): the classical bound `dt <= dx^2 / (2*alpha)`.
pub fn ftcs_stable(dt: u64, dx: u64, alpha: u64) -> (r: bool)
    requires
        dx <= 1_000_000_000,
        alpha <= 1_000_000_000_000_000_000,
    ensures
        r == spec_ftcs_stable(dt as int, dx as int, alpha as int),
{
    proof {
        assert((2 * alpha as int) * (dt as int) <= 2_000_000_000_000_000_000 * 0xffff_ffff_ffff_ffff)
            by (nonlinear_arith)
            requires
                0 <= alpha as int <= 1_000_000_000_000_000_000,
                0 <= dt as int <= 0xffff_ffff_ffff_ffff,
        ;
        assert((dx as int) * (dx as int) <= 1_000_000_000_000_000_000 && (1000 * (dx as int)) * (
        dx as int) <= 1_000_000_000_000_000_000_000) by (nonlinear_arith)
            requires
                0 <= dx as int <= 1_000_000_000,
        ;
    }
    let lhs: u128 = 2 * (alpha as u128) * (dt as u128);
    let rhs: u128 = 1000 * (dx as u128) * (dx as u128);
    lhs <= rhs
}

/// `|a * b| <= am * bm` when the factors are bounded by `am` and `bm`.
pub proof fn lemma_abs_mul_bound(a: int, b: int, am: int, bm: int)
    requires
        -am <= a <= am,
        -bm <= b <= bm,
        0 <= am,
        0 <= bm,
    ensures
        -(am * bm) <= a * b <= am * bm,
{
    assert(-(am * bm) <= a * b <= am * bm) by (nonlinear_arith)
        requires
            -am <= a <= am,
            -bm <= b <= bm,
            0 <= am,
            0 <= bm,
    ;
}

/// Advances the planar concentration field by one FTCS step with flux
/// boundary conditions: flux magnitude `s` (concentration units per step)
/// leaves the field at node 0 and enters at node `n-1`, so one current
/// drives lithium across the whole electrolyte gap. The update uses
/// pre-step values throughout (one saved previous value avoids a second
/// buffer). `rn / rd` must satisfy the stability bound `2*rn <= rd`.
#[verifier::loop_isolation(false)]
pub fn forward_time_centered_space_linear(y: &mut Vec<i64>, rn: u64, rd: u64, s: i64)
    requires
        old(y)@.len() >= 2,
        0 < rd <= MESH_DEN_LIMIT,
        2 * rn <= rd,
        -FLUX_STEP_LIMIT <= s <= FLUX_STEP_LIMIT,
        forall|i: int|
            0 <= i < old(y)@.len() ==> -CONC_LIMIT <= #[trigger] old(y)@[i] <= CONC_LIMIT,
    ensures
        final(y)@.len() == old(y)@.len(),
        forall|i: int|
            0 <= i < final(y)@.len() ==> #[trigger] final(y)@[i] == linear_node(
                to_ints(old(y)@),
                rn as int,
                rd as int,
                s as int,
                i,
            ),
        forall|i: int|
            0 <= i < final(y)@.len() ==> -(CONC_LIMIT + 2 * FLUX_STEP_LIMIT + 2)
                <= #[trigger] final(y)@[i] <= CONC_LIMIT + 2 * FLUX_STEP_LIMIT + 2,
{
    let ghost y0 = to_ints(old(y)@);
    let n: usize = y.len();
    let rdl: i128 = rd as i128;
    let rnl: i128 = rn as i128;
    let sl: i128 = s as i128;

    // Both boundary updates are taken from pre-step values now and written
    // after the interior sweep, exactly like the rolling-previous trick.
    proof {
        assert(forall|j: int| 0 <= j < n ==> #[trigger] y0[j] == old(y)@[j]);
        lemma_boundary_node_fit(y0[0], y0[1], rn as int, rd as int, -(s as int));
        lemma_boundary_node_fit(y0[n - 1], y0[n - 2], rn as int, rd as int, s as int);
        assert((-(s as int)) * (rd as int) == -((s as int) * (rd as int))) by (nonlinear_arith);
    }
    let left_num: i128 = (y[0] as i128) * rdl + rnl * ((y[1] as i128) - (y[0] as i128)) - sl * rdl;
    let last: usize = n - 1;
    let right_num: i128 = (y[last] as i128) * rdl + rnl * ((y[last - 1] as i128) - (y[last] as i128))
        + sl * rdl;
    let left_new: i128 = floor_div(left_num, rdl);
    let right_new: i128 = floor_div(right_num, rdl);

    let mut y_prev: i64 = y[0];
    let mut i: usize = 1;
    while i < n - 1
        invariant
            1 <= i <= n - 1,
            y@.len() == n,
            y_prev == y0[i - 1],
            forall|j: int| 1 <= j < i ==> #[trigger] y@[j] == linear_node(y0, rn as int, rd as int, s as int, j),
            forall|j: int| 1 <= j < i ==> -CONC_LIMIT <= #[trigger] y@[j] <= CONC_LIMIT,
            forall|j: int| (j == 0 || i <= j < n) ==> #[trigger] y@[j] == y0[j],
        decreases n - 1 - i,
    {
        proof {
            lemma_interior_node_fit(
                y0[i as int - 1],
                y0[i as int],
                y0[i as int + 1],
                rn as int,
                rd as int,
            );
        }
        let st: i128 = (y_prev as i128) - 2 * (y[i] as i128) + (y[i + 1] as i128);
        let num: i128 = (y[i] as i128) * rdl + rnl * st;
        let q: i128 = floor_div(num, rdl);
        y_prev = y[i];
        y.set(i, q as i64);
        i += 1;
    }
    y.set(0, left_new as i64);
    y.set(last, right_new as i64);
}

/// Advances the radial (spherically symmetric) concentration field by one
/// FTCS step. The centre has a zero-slope symmetry condition; the surface
/// node receives the prescribed outgoing flux `s` (concentration units per
/// step; positive means material leaves the particle). The update uses
/// pre-step values throughout. `rn / rd` must satisfy `2*rn <= rd`.
#[verifier::loop_isolation(false)]
pub fn forward_time_centered_space_radial(y: &mut Vec<i64>, rn: u64, rd: u64, s: i64)
    requires
        2 <= old(y)@.len() <= RADIAL_NODES_LIMIT,
        0 < rd <= MESH_DEN_LIMIT,
        2 * rn <= rd,
        -FLUX_STEP_LIMIT <= s <= FLUX_STEP_LIMIT,
        forall|i: int|
            0 <= i < old(y)@.len() ==> -CONC_LIMIT <= #[trigger] old(y)@[i] <= CONC_LIMIT,
    ensures
        final(y)@.len() == old(y)@.len(),
        forall|i: int|
            0 <= i < final(y)@.len() ==> #[trigger] final(y)@[i] == radial_node(
                to_ints(old(y)@),
                rn as int,
                rd as int,
                s as int,
                i,
            ),
        forall|i: int|
            0 <= i < final(y)@.len() ==> -(CONC_LIMIT + 2 * FLUX_STEP_LIMIT + 2)
                <= #[trigger] final(y)@[i] <= CONC_LIMIT + 2 * FLUX_STEP_LIMIT + 2,
{
    let ghost y0 = to_ints(old(y)@);
    let n: usize = y.len();
    let rdl: i128 = rd as i128;
    let rnl: i128 = rn as i128;
    let sl: i128 = s as i128;
    let nl: i128 = n as i128;

    proof {
        assert(forall|j: int| 0 <= j < n ==> #[trigger] y0[j] == old(y)@[j]);
        lemma_boundary_node_fit(y0[0], y0[1], rn as int, rd as int, 0);
        assert(0 * (rd as int) == 0) by (nonlinear_arith);
        lemma_surface_node_fit(y0[n - 1], y0[n - 2], rn as int, rd as int, s as int, n as int);
    }
    let center_num: i128 = (y[0] as i128) * rdl + rnl * ((y[1] as i128) - (y[0] as i128));
    let center_new: i128 = floor_div(center_num, rdl);
    let last: usize = n - 1;
    let surface_num: i128 = (y[last] as i128) * rdl * nl + (rnl * nl) * ((y[last - 1] as i128) - (
    y[last] as i128)) - sl * rdl * (nl + 2);
    let surface_new: i128 = floor_div(surface_num, rdl * nl);

    let mut y_prev: i64 = y[0];
    let mut i: usize = 1;
    while i < n - 1
        invariant
            1 <= i <= n - 1,
            y@.len() == n,
            y_prev == y0[i - 1],
            forall|j: int|
                1 <= j < i ==> #[trigger] y@[j] == radial_node(y0, rn as int, rd as int, s as int, j),
            forall|j: int| 1 <= j < i ==> -CONC_LIMIT <= #[trigger] y@[j] <= CONC_LIMIT,
            forall|j: int| (j == 0 || i <= j < n) ==> #[trigger] y@[j] == y0[j],
        decreases n - 1 - i,
    {
        proof {
            lemma_radial_interior_fit(
                y0[i as int - 1],
                y0[i as int],
                y0[i as int + 1],
                rn as int,
                rd as int,
                i as int,
            );
        }
        let il: i128 = i as i128;
        let st: i128 = (y_prev as i128) - 2 * (y[i] as i128) + (y[i + 1] as i128);
        let num: i128 = (y[i] as i128) * rdl * il + (rnl * il) * st + rnl * ((y[i + 1] as i128) - (
        y_prev as i128));
        let q: i128 = floor_div(num, rdl * il);
        y_prev = y[i];
        y.set(i, q as i64);
        i += 1;
    }
    y.set(0, center_new as i64);
    y.set(last, surface_new as i64);
}

/// Bracketing for a radial interior node at radius index `i`: the update
/// is a nonnegative convex combination of the three neighbouring nodes
/// over the denominator `rd*i`, so it stays inside the field's bracket.
#[verifier::rlimit(60)]
proof fn lemma_radial_interior_fit(ym: int, yc: int, yp: int, rn: int, rd: int, i: int)
    requires
        0 < rd <= MESH_DEN_LIMIT,
        0 <= 2 * rn <= rd,
        1 <= i < RADIAL_NODES_LIMIT,
        -CONC_LIMIT <= ym <= CONC_LIMIT,
        -CONC_LIMIT <= yc <= CONC_LIMIT,
        -CONC_LIMIT <= yp <= CONC_LIMIT,
    ensures
        0 < rd * i,
        -(CONC_LIMIT as int) <= fdiv(
            yc * rd * i + rn * i * (ym - 2 * yc + yp) + rn * (yp - ym),
            rd * i,
        ) <= CONC_LIMIT as int,
        -4_000_000_000_000_000_000_000_000_000_000_000 <= yc * rd
            <= 4_000_000_000_000_000_000_000_000_000_000_000,
        -17_000_000_000_000_000_000_000_000_000_000_000_000 <= yc * rd * i
            <= 17_000_000_000_000_000_000_000_000_000_000_000_000,
        -4_096_000_000_000_000_000 <= rn * i <= 4_096_000_000_000_000_000,
        -66_000_000_000_000_000_000_000_000_000_000_000_000 <= rn * i * (ym - 2 * yc + yp)
            <= 66_000_000_000_000_000_000_000_000_000_000_000_000,
        -8_000_000_000_000_000_000_000_000_000_000_000 <= rn * (yp - ym)
            <= 8_000_000_000_000_000_000_000_000_000_000_000,
        0 < rd * i <= 4_096_000_000_000_000_000,
{
    assert(CONC_LIMIT == 4_000_000_000_000_000_000);
    assert(MESH_DEN_LIMIT == 1_000_000_000_000_000);
    assert(RADIAL_NODES_LIMIT == 4096);
    assert(0 < rd * i && rd * i <= 4_096_000_000_000_000_000) by (nonlinear_arith)
        requires
            0 < rd <= 1_000_000_000_000_000,
            1 <= i <= 4096,
    ;
    lemma_abs_mul_bound(yc, rd, 4_000_000_000_000_000_000, 1_000_000_000_000_000);
    lemma_abs_mul_bound(yc * rd, i, 4_000_000_000_000_000_000_000_000_000_000_000, 4096);
    lemma_abs_mul_bound(rn, i, 1_000_000_000_000_000, 4096);
    lemma_abs_mul_bound(
        rn * i,
        ym - 2 * yc + yp,
        4_096_000_000_000_000_000,
        16_000_000_000_000_000_000,
    );
    lemma_abs_mul_bound(rn, yp - ym, 1_000_000_000_000_000, 8_000_000_000_000_000_000);
    let num = yc * rd * i + rn * i * (ym - 2 * yc + yp) + rn * (yp - ym);
    assert(yc * rd * i == ((rd - 2 * rn) * i) * yc + (2 * rn * i) * yc) by (nonlinear_arith);
    assert(rn * i * (ym - 2 * yc + yp) == (rn * i) * ym - (2 * rn * i) * yc + (rn * i) * yp)
        by (nonlinear_arith);
    assert(rn * (yp - ym) == rn * yp - rn * ym) by (nonlinear_arith);
    assert((rn * i) * ym - rn * ym == (rn * (i - 1)) * ym) by (nonlinear_arith);
    assert((rn * i) * yp + rn * yp == (rn * (i + 1)) * yp) by (nonlinear_arith);
    assert(num == (rn * (i - 1)) * ym + ((rd - 2 * rn) * i) * yc + (rn * (i + 1)) * yp);
    assert(rn * (i - 1) >= 0 && (rd - 2 * rn) * i >= 0 && rn * (i + 1) >= 0 && rn * (i - 1) + (rd
        - 2 * rn) * i + rn * (i + 1) == rd * i) by (nonlinear_arith)
        requires
            0 <= 2 * rn <= rd,
            1 <= i,
    ;
    lemma_weighted3_bounds(
        rn * (i - 1),
        (rd - 2 * rn) * i,
        rn * (i + 1),
        ym,
        yc,
        yp,
        -(CONC_LIMIT as int),
        CONC_LIMIT as int,
        rd * i,
    );
    lemma_fdiv_bounds(num, rd * i, -(CONC_LIMIT as int), CONC_LIMIT as int);
}

/// Bracketing for the radial surface node: a two-point convex combination
/// over `rd*n`, shifted by the outgoing flux term `s*(n+2)/n`, which is at
/// most `2*s` in magnitude.
#[verifier::rlimit(60)]
proof fn lemma_surface_node_fit(yc: int, yn: int, rn: int, rd: int, s: int, n: int)
    requires
        0 < rd <= MESH_DEN_LIMIT,
        0 <= 2 * rn <= rd,
        2 <= n <= RADIAL_NODES_LIMIT,
        -CONC_LIMIT <= yc <= CONC_LIMIT,
        -CONC_LIMIT <= yn <= CONC_LIMIT,
        -(FLUX_STEP_LIMIT as int) <= s <= FLUX_STEP_LIMIT as int,
    ensures
        -(CONC_LIMIT + 2 * FLUX_STEP_LIMIT as int) <= fdiv(
            yc * rd * n + rn * n * (yn - yc) - s * rd * (n + 2),
            rd * n,
        ) <= CONC_LIMIT + 2 * FLUX_STEP_LIMIT as int,
        -4_000_000_000_000_000_000_000_000_000_000_000 <= yc * rd
            <= 4_000_000_000_000_000_000_000_000_000_000_000,
        -17_000_000_000_000_000_000_000_000_000_000_000_000 <= yc * rd * n
            <= 17_000_000_000_000_000_000_000_000_000_000_000_000,
        -4_096_000_000_000_000_000 <= rn * n <= 4_096_000_000_000_000_000,
        -33_000_000_000_000_000_000_000_000_000_000_000_000 <= rn * n * (yn - yc)
            <= 33_000_000_000_000_000_000_000_000_000_000_000_000,
        -5_000_000_000_000_000_000_000_000_000_000 <= s * rd * (n + 2)
            <= 5_000_000_000_000_000_000_000_000_000_000,
        -2_000_000_000_000_000_000_000_000_000 <= s * rd <= 2_000_000_000_000_000_000_000_000_000,
        0 < rd * n <= 4_096_000_000_000_000_000,
{
    assert(CONC_LIMIT == 4_000_000_000_000_000_000);
    assert(MESH_DEN_LIMIT == 1_000_000_000_000_000);
    assert(FLUX_STEP_LIMIT == 1_000_000_000_000);
    assert(RADIAL_NODES_LIMIT == 4096);
    assert(0 < rd * n && rd * n <= 4_096_000_000_000_000_000) by (nonlinear_arith)
        requires
            0 < rd <= 1_000_000_000_000_000,
            2 <= n <= 4096,
    ;
    lemma_abs_mul_bound(yc, rd, 4_000_000_000_000_000_000, 1_000_000_000_000_000);
    lemma_abs_mul_bound(yc * rd, n, 4_000_000_000_000_000_000_000_000_000_000_000, 4096);
    lemma_abs_mul_bound(rn, n, 1_000_000_000_000_000, 4096);
    lemma_abs_mul_bound(rn * n, yn - yc, 4_096_000_000_000_000_000, 8_000_000_000_000_000_000);
    lemma_abs_mul_bound(s, rd, 1_000_000_000_000, 1_000_000_000_000_000);
    lemma_abs_mul_bound(s * rd, n + 2, 1_000_000_000_000_000_000_000_000_000, 4098);
    let num = yc * rd * n + rn * n * (yn - yc) - s * rd * (n + 2);
    assert(yc * rd * n + rn * n * (yn - yc) == ((rd - rn) * n) * yc + (rn * n) * yn)
        by (nonlinear_arith);
    assert((rd - rn) * n >= 0 && rn * n >= 0 && (rd - rn) * n + rn * n + 0 == rd * n)
        by (nonlinear_arith)
        requires
            0 <= 2 * rn <= rd,
            2 <= n,
    ;
    lemma_weighted3_bounds(
        (rd - rn) * n,
        rn * n,
        0,
        yc,
        yn,
        yc,
        -(CONC_LIMIT as int),
        CONC_LIMIT as int,
        rd * n,
    );
    assert(-((2 * FLUX_STEP_LIMIT) * (rd * n)) <= -(s * rd * (n + 2))
        <= (2 * FLUX_STEP_LIMIT) * (rd * n)) by (nonlinear_arith)
        requires
            -(FLUX_STEP_LIMIT as int) <= s <= FLUX_STEP_LIMIT as int,
            0 < rd,
            2 <= n,
            FLUX_STEP_LIMIT == 1_000_000_000_000,
    ;
    assert((-(CONC_LIMIT + 2 * FLUX_STEP_LIMIT as int)) * (rd * n) <= num <= (CONC_LIMIT + 2
        * FLUX_STEP_LIMIT as int) * (rd * n)) by (nonlinear_arith)
        requires
            (-(CONC_LIMIT as int)) * (rd * n) <= yc * rd * n + rn * n * (yn - yc) <= (
            CONC_LIMIT as int) * (rd * n),
            -((2 * FLUX_STEP_LIMIT) * (rd * n)) <= -(s * rd * (n + 2)) <= (2 * FLUX_STEP_LIMIT) * (
            rd * n),
            num == yc * rd * n + rn * n * (yn - yc) - s * rd * (n + 2),
            0 < rd * n,
    ;
    lemma_fdiv_bounds(
        num,
        rd * n,
        -(CONC_LIMIT + 2 * FLUX_STEP_LIMIT as int),
        CONC_LIMIT + 2 * FLUX_STEP_LIMIT as int,
    );
}

/// The weighted form of a planar interior node stays inside the field's
/// bracket when the step is stable, so its floored quotient fits an `i64`
/// and every intermediate product fits an `i128`.
proof fn lemma_interior_node_fit(ym: int, yc: int, yp: int, rn: int, rd: int)
    requires
        0 < rd <= MESH_DEN_LIMIT,
        0 <= 2 * rn <= rd,
        -CONC_LIMIT <= ym <= CONC_LIMIT,
        -CONC_LIMIT <= yc <= CONC_LIMIT,
        -CONC_LIMIT <= yp <= CONC_LIMIT,
    ensures
        -(CONC_LIMIT as int) <= fdiv(yc * rd + rn * (ym - 2 * yc + yp), rd) <= CONC_LIMIT as int,
        -100_000_000_000_000_000_000_000_000_000_000_000 <= yc * rd
            <= 100_000_000_000_000_000_000_000_000_000_000_000,
        -100_000_000_000_000_000_000_000_000_000_000_000 <= rn * (ym - 2 * yc + yp)
            <= 100_000_000_000_000_000_000_000_000_000_000_000,
        -100_000_000_000_000_000_000_000_000_000_000_000 <= yc * rd + rn * (ym - 2 * yc + yp)
            <= 100_000_000_000_000_000_000_000_000_000_000_000,
{
    assert(CONC_LIMIT == 4_000_000_000_000_000_000);
    assert(MESH_DEN_LIMIT == 1_000_000_000_000_000);
    let num = yc * rd + rn * (ym - 2 * yc + yp);
    assert(yc * rd + rn * (ym - 2 * yc + yp) == rn * ym + (rd - 2 * rn) * yc + rn * yp)
        by (nonlinear_arith);
    lemma_weighted3_bounds(
        rn,
        rd - 2 * rn,
        rn,
        ym,
        yc,
        yp,
        -(CONC_LIMIT as int),
        CONC_LIMIT as int,
        rd,
    );
    lemma_abs_mul_bound(yc, rd, 4_000_000_000_000_000_000, 1_000_000_000_000_000);
    lemma_abs_mul_bound(
        rn,
        ym - 2 * yc + yp,
        1_000_000_000_000_000,
        16_000_000_000_000_000_000,
    );
    lemma_fdiv_bounds(num, rd, -(CONC_LIMIT as int), CONC_LIMIT as int);
}

/// Same for a boundary node, whose update is a two-point convex
/// combination shifted by the flux term `t` (`t = -s` at the left end and
/// `t = s` at the right one).
proof fn lemma_boundary_node_fit(yc: int, yn: int, rn: int, rd: int, t: int)
    requires
        0 < rd <= MESH_DEN_LIMIT,
        0 <= 2 * rn <= rd,
        -CONC_LIMIT <= yc <= CONC_LIMIT,
        -CONC_LIMIT <= yn <= CONC_LIMIT,
        -(FLUX_STEP_LIMIT as int) <= t <= FLUX_STEP_LIMIT as int,
    ensures
        -(CONC_LIMIT + FLUX_STEP_LIMIT as int) <= fdiv(yc * rd + rn * (yn - yc) + t * rd, rd) <= (
        CONC_LIMIT + FLUX_STEP_LIMIT as int),
        -100_000_000_000_000_000_000_000_000_000_000_000 <= yc * rd
            <= 100_000_000_000_000_000_000_000_000_000_000_000,
        -100_000_000_000_000_000_000_000_000_000_000_000 <= rn * (yn - yc)
            <= 100_000_000_000_000_000_000_000_000_000_000_000,
        -100_000_000_000_000_000_000_000_000_000_000_000 <= t * rd
            <= 100_000_000_000_000_000_000_000_000_000_000_000,
        -100_000_000_000_000_000_000_000_000_000_000_000 <= yc * rd + rn * (yn - yc) + t * rd
            <= 100_000_000_000_000_000_000_000_000_000_000_000,
{
    assert(CONC_LIMIT == 4_000_000_000_000_000_000);
    assert(MESH_DEN_LIMIT == 1_000_000_000_000_000);
    assert(FLUX_STEP_LIMIT == 1_000_000_000_000);
    let num = yc * rd + rn * (yn - yc) + t * rd;
    assert((rd - rn) * yc + rn * yn + t * rd == yc * rd + rn * (yn - yc) + t * rd)
        by (nonlinear_arith);
    lemma_weighted3_bounds(
        rd - rn,
        rn,
        0,
        yc,
        yn,
        yc,
        -(CONC_LIMIT as int),
        CONC_LIMIT as int,
        rd,
    );
    lemma_abs_mul_bound(yc, rd, 4_000_000_000_000_000_000, 1_000_000_000_000_000);
    lemma_abs_mul_bound(rn, yn - yc, 1_000_000_000_000_000, 8_000_000_000_000_000_000);
    lemma_abs_mul_bound(t, rd, 1_000_000_000_000, 1_000_000_000_000_000);
    assert((-(CONC_LIMIT + FLUX_STEP_LIMIT as int)) * rd <= (rd - rn) * yc + rn * yn + t * rd <= (
    CONC_LIMIT + FLUX_STEP_LIMIT as int) * rd) by (nonlinear_arith)
        requires
            (-(CONC_LIMIT as int)) * rd <= (rd - rn) * yc + rn * yn <= (CONC_LIMIT as int) * rd,
            -(FLUX_STEP_LIMIT as int) <= t <= FLUX_STEP_LIMIT as int,
            0 < rd,
    ;
    lemma_fdiv_bounds(
        num,
        rd,
        -(CONC_LIMIT + FLUX_STEP_LIMIT as int),
        CONC_LIMIT + FLUX_STEP_LIMIT as int,
    );
}


/// Adjacent non-increase propagates to any pair of indices.
pub proof fn lemma_adjacent_monotone(y: Seq<int>, i: int, j: int)
    requires
        forall|k: int| 0 <= k < y.len() - 1 ==> #[trigger] y[k] >= y[k + 1],
        0 <= i <= j < y.len(),
    ensures
        y[i] >= y[j],
    decreases j - i,
{
    if i < j {
        lemma_adjacent_monotone(y, i, j - 1);
        assert(y[j - 1] >= y[j - 1 + 1]);
    }
}

/// For fixed grid step and diffusivity, the stability predicate is
/// monotone in the timestep: everything below a stable timestep is
/// stable, everything above an unstable one is unstable.
pub proof fn lemma_ftcs_stable_monotone(dt1: int, dt2: int, dx: int, alpha: int)
    requires
        0 <= dt1 <= dt2,
        0 <= alpha,
        spec_ftcs_stable(dt2, dx, alpha),
    ensures
        spec_ftcs_stable(dt1, dx, alpha),
{
    assert(2 * alpha * dt1 <= 2 * alpha * dt2) by (nonlinear_arith)
        requires
            0 <= dt1 <= dt2,
            0 <= alpha,
    ;
}

/// The stability bound is inclusive: the largest whole timestep not above
/// `dx^2 / (2*alpha)` is stable, and every timestep beyond it is not.
pub proof fn lemma_ftcs_stable_boundary(dx: int, alpha: int)
    requires
        0 < alpha,
        0 <= dx,
    ensures
        spec_ftcs_stable(fdiv(1000 * dx * dx, 2 * alpha), dx, alpha),
        forall|dt: int|
            dt > fdiv(1000 * dx * dx, 2 * alpha) ==> !spec_ftcs_stable(dt, dx, alpha),
{
    let m = 1000 * dx * dx;
    let q = fdiv(m, 2 * alpha);
    let r = m % (2 * alpha);
    vstd::arithmetic::div_mod::lemma_fundamental_div_mod(m, 2 * alpha);
    assert(0 <= r < 2 * alpha);
    assert(2 * alpha * q <= m) by (nonlinear_arith)
        requires
            m == 2 * alpha * q + r,
            0 <= r,
    ;
    assert forall|dt: int| dt > q implies !spec_ftcs_stable(dt, dx, alpha) by {
        assert(2 * alpha * dt > m) by (nonlinear_arith)
            requires
                dt >= q + 1,
                0 < alpha,
                m == 2 * alpha * q + r,
                r < 2 * alpha,
        ;
    }
}

/// A uniform field with zero boundary flux is a fixed point of the planar
/// step: steady state is preserved exactly, despite the rounding.
pub proof fn lemma_linear_uniform_fixed_point(y: Seq<int>, rn: int, rd: int)
    requires
        y.len() >= 2,
        0 < rd,
        0 <= rn,
        forall|i: int| 0 <= i < y.len() ==> #[trigger] y[i] == y[0],
    ensures
        linear_stepped(y, rn, rd, 0) == y,
{
    assert forall|i: int| 0 <= i < y.len() implies #[trigger] linear_stepped(y, rn, rd, 0)[i]
        == y[i] by {
        assert(rn * 0 == 0) by (nonlinear_arith);
        assert(0 * rd == 0) by (nonlinear_arith);
        crate::numeric::lemma_fdiv_multiple(y[i], rd);
    }
    assert(linear_stepped(y, rn, rd, 0) =~= y);
}

/// A uniform field with zero surface flux is likewise a fixed point of
/// the radial step.
pub proof fn lemma_radial_uniform_fixed_point(y: Seq<int>, rn: int, rd: int)
    requires
        y.len() >= 2,
        0 < rd,
        0 <= rn,
        forall|i: int| 0 <= i < y.len() ==> #[trigger] y[i] == y[0],
    ensures
        radial_stepped(y, rn, rd, 0) == y,
{
    let n = y.len() as int;
    assert forall|i: int| 0 <= i < y.len() implies #[trigger] radial_stepped(y, rn, rd, 0)[i]
        == y[i] by {
        assert(rn * 0 == 0) by (nonlinear_arith);
        if i == 0 {
            crate::numeric::lemma_fdiv_multiple(y[0], rd);
        } else if i == n - 1 {
            assert(0 < rd * n) by (nonlinear_arith)
                requires
                    0 < rd,
                    2 <= n,
            ;
            assert(rn * n * 0 == 0) by (nonlinear_arith);
            assert(0 * rd * (n + 2) == 0) by (nonlinear_arith);
            assert(y[n - 1] * rd * n == y[n - 1] * (rd * n)) by (nonlinear_arith);
            crate::numeric::lemma_fdiv_multiple(y[n - 1], rd * n);
        } else {
            assert(0 < rd * i) by (nonlinear_arith)
                requires
                    0 < rd,
                    1 <= i,
            ;
            assert(rn * i * 0 == 0) by (nonlinear_arith);
            assert(y[i] * rd * i == y[i] * (rd * i)) by (nonlinear_arith);
            crate::numeric::lemma_fdiv_multiple(y[i], rd * i);
        }
    }
    assert(radial_stepped(y, rn, rd, 0) =~= y);
}

/// Smoothing of a left-peaked profile under zero boundary flux: one
/// stable planar step keeps the profile non-increasing in space, never
/// raises the peak (and strictly lowers it while a gradient remains at
/// the peak), never lowers the trailing minimum, and leaves no node below
/// the field's minimum value.
pub proof fn lemma_linear_monotone_smoothing(y: Seq<int>, rn: int, rd: int)
    requires
        y.len() >= 2,
        0 < rd,
        0 <= 2 * rn <= rd,
        forall|k: int| 0 <= k < y.len() - 1 ==> #[trigger] y[k] >= y[k + 1],
    ensures
        forall|k: int|
            0 <= k < y.len() - 1 ==> #[trigger] linear_stepped(y, rn, rd, 0)[k] >= linear_stepped(
                y,
                rn,
                rd,
                0,
            )[k + 1],
        linear_stepped(y, rn, rd, 0)[0] <= y[0],
        rn >= 1 && y[1] < y[0] ==> linear_stepped(y, rn, rd, 0)[0] < y[0],
        forall|k: int|
            0 <= k < y.len() ==> #[trigger] linear_stepped(y, rn, rd, 0)[k] >= y[y.len() - 1],
        linear_stepped(y, rn, rd, 0)[y.len() - 1] >= y[y.len() - 1],
{
    let n = y.len() as int;
    let z = linear_stepped(y, rn, rd, 0);
    let lo = y[n - 1];
    let hi = y[0];
    assert(0 * rd == 0) by (nonlinear_arith);
    assert forall|k: int| 0 <= k < n implies lo <= #[trigger] y[k] <= hi by {
        lemma_adjacent_monotone(y, 0, k);
        lemma_adjacent_monotone(y, k, n - 1);
    }

    // No node escapes the field's bracket: each update is a nonnegative
    // convex combination of pre-step values.
    assert forall|k: int| 0 <= k < n implies lo <= #[trigger] z[k] <= hi by {
        if k == 0 {
            assert((rd - rn) * y[0] + rn * y[1] == y[0] * rd + rn * (y[1] - y[0]))
                by (nonlinear_arith);
            lemma_weighted3_bounds(rd - rn, rn, 0, y[0], y[1], y[0], lo, hi, rd);
            lemma_fdiv_bounds(y[0] * rd + rn * (y[1] - y[0]), rd, lo, hi);
        } else if k == n - 1 {
            assert((rd - rn) * y[n - 1] + rn * y[n - 2] == y[n - 1] * rd + rn * (y[n - 2] - y[n
                - 1])) by (nonlinear_arith);
            lemma_weighted3_bounds(rd - rn, rn, 0, y[n - 1], y[n - 2], y[n - 1], lo, hi, rd);
            lemma_fdiv_bounds(y[n - 1] * rd + rn * (y[n - 2] - y[n - 1]), rd, lo, hi);
        } else {
            assert(rn * y[k - 1] + (rd - 2 * rn) * y[k] + rn * y[k + 1] == y[k] * rd + rn * (y[k
                - 1] - 2 * y[k] + y[k + 1])) by (nonlinear_arith);
            lemma_weighted3_bounds(rn, rd - 2 * rn, rn, y[k - 1], y[k], y[k + 1], lo, hi, rd);
            lemma_fdiv_bounds(y[k] * rd + rn * (y[k - 1] - 2 * y[k] + y[k + 1]), rd, lo, hi);
        }
    }

    // The spatial profile stays non-increasing: the pre-division
    // numerators are ordered, and flooring is monotone.
    assert forall|k: int| 0 <= k < n - 1 implies #[trigger] z[k] >= z[k + 1] by {
        let ka = if k == 0 {
            y[0] * rd + rn * (y[1] - y[0])
        } else {
            y[k] * rd + rn * (y[k - 1] - 2 * y[k] + y[k + 1])
        };
        let kb = if k + 1 == n - 1 {
            y[n - 1] * rd + rn * (y[n - 2] - y[n - 1])
        } else {
            y[k + 1] * rd + rn * (y[k] - 2 * y[k + 1] + y[k + 2])
        };
        if k == 0 && k + 1 == n - 1 {
            assert(ka - kb == (rd - 2 * rn) * (y[0] - y[1])) by (nonlinear_arith)
                requires
                    ka == y[0] * rd + rn * (y[1] - y[0]),
                    kb == y[1] * rd + rn * (y[0] - y[1]),
                    n == 2,
            ;
            assert((rd - 2 * rn) * (y[0] - y[1]) >= 0) by (nonlinear_arith)
                requires
                    2 * rn <= rd,
                    y[0] >= y[1],
            ;
        } else if k == 0 {
            assert(ka - kb == (rd - 2 * rn) * (y[0] - y[1]) + rn * (y[1] - y[2]))
                by (nonlinear_arith)
                requires
                    ka == y[0] * rd + rn * (y[1] - y[0]),
                    kb == y[1] * rd + rn * (y[0] - 2 * y[1] + y[2]),
            ;
            assert((rd - 2 * rn) * (y[0] - y[1]) + rn * (y[1] - y[2]) >= 0) by (nonlinear_arith)
                requires
                    2 * rn <= rd,
                    0 <= rn,
                    y[0] >= y[1],
                    y[1] >= y[2],
            ;
        } else if k + 1 == n - 1 {
            assert(ka - kb == (rd - 2 * rn) * (y[n - 2] - y[n - 1]) + rn * (y[n - 3] - y[n - 2]))
                by (nonlinear_arith)
                requires
                    ka == y[n - 2] * rd + rn * (y[n - 3] - 2 * y[n - 2] + y[n - 1]),
                    kb == y[n - 1] * rd + rn * (y[n - 2] - y[n - 1]),
                    k == n - 2,
            ;
            assert((rd - 2 * rn) * (y[n - 2] - y[n - 1]) + rn * (y[n - 3] - y[n - 2]) >= 0)
                by (nonlinear_arith)
                requires
                    2 * rn <= rd,
                    0 <= rn,
                    y[n - 2] >= y[n - 1],
                    y[n - 3] >= y[n - 2],
            ;
        } else {
            assert(ka - kb == (rd - 2 * rn) * (y[k] - y[k + 1]) + rn * (y[k - 1] - y[k]) + rn * (y[k
                + 1] - y[k + 2])) by (nonlinear_arith)
                requires
                    ka == y[k] * rd + rn * (y[k - 1] - 2 * y[k] + y[k + 1]),
                    kb == y[k + 1] * rd + rn * (y[k] - 2 * y[k + 1] + y[k + 2]),
            ;
            assert((rd - 2 * rn) * (y[k] - y[k + 1]) + rn * (y[k - 1] - y[k]) + rn * (y[k + 1] - y[k
                + 2]) >= 0) by (nonlinear_arith)
                requires
                    2 * rn <= rd,
                    0 <= rn,
                    y[k] >= y[k + 1],
                    y[k - 1] >= y[k],
                    y[k + 1] >= y[k + 2],
            ;
        }
        crate::numeric::lemma_fdiv_mono(kb, ka, rd);
    }

    // The peak never rises, and strictly falls while a gradient remains.
    assert(rn * (y[1] - y[0]) <= 0) by (nonlinear_arith)
        requires
            0 <= rn,
            y[1] <= y[0],
    ;
    crate::numeric::lemma_fdiv_mono(y[0] * rd + rn * (y[1] - y[0]), y[0] * rd, rd);
    crate::numeric::lemma_fdiv_multiple(y[0], rd);
    if rn >= 1 && y[1] < y[0] {
        assert(rn * (y[1] - y[0]) <= -1) by (nonlinear_arith)
            requires
                1 <= rn,
                y[1] - y[0] <= -1,
        ;
        crate::numeric::lemma_fdiv_mono(y[0] * rd + rn * (y[1] - y[0]), y[0] * rd - 1, rd);
        assert(y[0] * rd - 1 == (y[0] - 1) * rd + (rd - 1)) by (nonlinear_arith);
        vstd::arithmetic::div_mod::lemma_fundamental_div_mod_converse(
            y[0] * rd - 1,
            rd,
            y[0] - 1,
            rd - 1,
        );
    }

    // The trailing minimum never falls.
    assert(rn * (y[n - 2] - y[n - 1]) >= 0) by (nonlinear_arith)
        requires
            0 <= rn,
            y[n - 2] >= y[n - 1],
    ;
    crate::numeric::lemma_fdiv_mono(y[n - 1] * rd, y[n - 1] * rd + rn * (y[n - 2] - y[n - 1]), rd);
    crate::numeric::lemma_fdiv_multiple(y[n - 1], rd);
}

/// The sign convention of the radial surface flux: where the field is
/// locally flat at the surface, a positive (outgoing) flux strictly
/// lowers the surface node in one step, a negative (incoming) flux
/// strictly raises it, and zero flux leaves it unchanged.
pub proof fn lemma_radial_surface_flux_sign(y: Seq<int>, rn: int, rd: int, s: int)
    requires
        y.len() >= 2,
        0 < rd,
        0 <= rn,
        y[y.len() - 2] == y[y.len() - 1],
    ensures
        s >= 1 ==> radial_node(y, rn, rd, s, y.len() - 1) < y[y.len() - 1],
        s <= -1 ==> radial_node(y, rn, rd, s, y.len() - 1) > y[y.len() - 1],
        s == 0 ==> radial_node(y, rn, rd, s, y.len() - 1) == y[y.len() - 1],
{
    let n = y.len() as int;
    let c = y[n - 1];
    let num = c * rd * n + rn * n * (c - c) - s * rd * (n + 2);
    assert(0 < rd * n) by (nonlinear_arith)
        requires
            0 < rd,
            2 <= n,
    ;
    assert(rn * n * 0 == 0) by (nonlinear_arith);
    assert(c * rd * n == c * (rd * n)) by (nonlinear_arith);
    crate::numeric::lemma_fdiv_multiple(c, rd * n);
    if s >= 1 {
        assert(num <= (c - 1) * (rd * n)) by (nonlinear_arith)
            requires
                num == c * (rd * n) - s * rd * (n + 2),
                s >= 1,
                0 < rd,
                2 <= n,
        ;
        crate::numeric::lemma_fdiv_mono(num, (c - 1) * (rd * n), rd * n);
        crate::numeric::lemma_fdiv_multiple(c - 1, rd * n);
    }
    if s <= -1 {
        assert(num >= (c + 1) * (rd * n)) by (nonlinear_arith)
            requires
                num == c * (rd * n) - s * rd * (n + 2),
                s <= -1,
                0 < rd,
                2 <= n,
        ;
        crate::numeric::lemma_fdiv_mono((c + 1) * (rd * n), num, rd * n);
        crate::numeric::lemma_fdiv_multiple(c + 1, rd * n);
    }
    if s == 0 {
        assert(0 * rd * (n + 2) == 0) by (nonlinear_arith);
    }
}


/// One planar step grows the field's magnitude bound by at most
/// `2*|s| + 2`: interior nodes are convex combinations, boundary nodes add
/// the flux term and lose at most one unit to flooring.
pub proof fn lemma_linear_stepped_bound(y: Seq<int>, rn: int, rd: int, s: int, b: int)
    requires
        y.len() >= 2,
        0 < rd,
        0 <= 2 * rn <= rd,
        0 <= b,
        forall|i: int| 0 <= i < y.len() ==> -b <= #[trigger] y[i] <= b,
    ensures
        forall|i: int|
            0 <= i < y.len() ==> -(b + 2 * abs1(s) + 2) <= #[trigger] linear_stepped(
                y,
                rn,
                rd,
                s,
            )[i] <= b + 2 * abs1(s) + 2,
{
    let n = y.len() as int;
    let sa = abs1(s);
    assert forall|i: int| 0 <= i < n implies -(b + 2 * sa + 2) <= #[trigger] linear_stepped(
        y,
        rn,
        rd,
        s,
    )[i] <= b + 2 * sa + 2 by {
        if i == 0 || i == n - 1 {
            let yc = y[i];
            let yn = if i == 0 {
                y[1]
            } else {
                y[n - 2]
            };
            let t = if i == 0 {
                -s
            } else {
                s
            };
            let num = yc * rd + rn * (yn - yc) + t * rd;
            assert((rd - rn) * yc + rn * yn == yc * rd + rn * (yn - yc)) by (nonlinear_arith);
            lemma_weighted3_bounds(rd - rn, rn, 0, yc, yn, yc, -b, b, rd);
            assert((-(b + sa)) * rd <= num <= (b + sa) * rd) by (nonlinear_arith)
                requires
                    (-b) * rd <= (rd - rn) * yc + rn * yn <= b * rd,
                    num == (rd - rn) * yc + rn * yn + t * rd,
                    -sa <= t <= sa,
                    0 < rd,
            ;
            lemma_fdiv_bounds(num, rd, -(b + sa), b + sa);
            if i == 0 {
                assert(linear_stepped(y, rn, rd, s)[i] == fdiv(
                    y[0] * rd + rn * (y[1] - y[0]) - s * rd,
                    rd,
                ));
                assert(y[0] * rd + rn * (y[1] - y[0]) - s * rd == num) by (nonlinear_arith)
                    requires
                        num == y[0] * rd + rn * (y[1] - y[0]) + (-s) * rd,
                ;
            }
        } else {
            let num = y[i] * rd + rn * (y[i - 1] - 2 * y[i] + y[i + 1]);
            assert(rn * y[i - 1] + (rd - 2 * rn) * y[i] + rn * y[i + 1] == y[i] * rd + rn * (y[i
                - 1] - 2 * y[i] + y[i + 1])) by (nonlinear_arith);
            lemma_weighted3_bounds(rn, rd - 2 * rn, rn, y[i - 1], y[i], y[i + 1], -b, b, rd);
            lemma_fdiv_bounds(num, rd, -b, b);
        }
    }
}

/// The radial analogue: one step grows the magnitude bound by at most
/// `2*|s| + 2` (the surface node's flux factor `(n+2)/n` is at most two).
pub proof fn lemma_radial_stepped_bound(y: Seq<int>, rn: int, rd: int, s: int, b: int)
    requires
        y.len() >= 2,
        0 < rd,
        0 <= 2 * rn <= rd,
        0 <= b,
        forall|i: int| 0 <= i < y.len() ==> -b <= #[trigger] y[i] <= b,
    ensures
        forall|i: int|
            0 <= i < y.len() ==> -(b + 2 * abs1(s) + 2) <= #[trigger] radial_stepped(
                y,
                rn,
                rd,
                s,
            )[i] <= b + 2 * abs1(s) + 2,
{
    let n = y.len() as int;
    let sa = abs1(s);
    assert forall|i: int| 0 <= i < n implies -(b + 2 * sa + 2) <= #[trigger] radial_stepped(
        y,
        rn,
        rd,
        s,
    )[i] <= b + 2 * sa + 2 by {
        if i == 0 {
            let num = y[0] * rd + rn * (y[1] - y[0]);
            assert((rd - rn) * y[0] + rn * y[1] == y[0] * rd + rn * (y[1] - y[0]))
                by (nonlinear_arith);
            lemma_weighted3_bounds(rd - rn, rn, 0, y[0], y[1], y[0], -b, b, rd);
            lemma_fdiv_bounds(num, rd, -b, b);
        } else if i == n - 1 {
            let num = y[n - 1] * rd * n + rn * n * (y[n - 2] - y[n - 1]) - s * rd * (n + 2);
            assert(0 < rd * n && ((rd - rn) * n) >= 0 && (rn * n) >= 0 && ((rd - rn) * n) + (rn * n)
                + 0 == rd * n) by (nonlinear_arith)
                requires
                    0 < rd,
                    0 <= 2 * rn <= rd,
                    2 <= n,
            ;
            assert(((rd - rn) * n) * y[n - 1] + (rn * n) * y[n - 2] == y[n - 1] * rd * n + rn * n
                * (y[n - 2] - y[n - 1])) by (nonlinear_arith);
            lemma_weighted3_bounds((rd - rn) * n, rn * n, 0, y[n - 1], y[n - 2], y[n - 1], -b, b, rd * n);
            assert((-(b + 2 * sa)) * (rd * n) <= num <= (b + 2 * sa) * (rd * n))
                by (nonlinear_arith)
                requires
                    (-b) * (rd * n) <= y[n - 1] * rd * n + rn * n * (y[n - 2] - y[n - 1]) <= b * (rd
                        * n),
                    num == y[n - 1] * rd * n + rn * n * (y[n - 2] - y[n - 1]) - s * rd * (n + 2),
                    -sa <= s <= sa,
                    0 <= sa,
                    0 < rd,
                    2 <= n,
            ;
            lemma_fdiv_bounds(num, rd * n, -(b + 2 * sa), b + 2 * sa);
        } else {
            let num = y[i] * rd * i + rn * i * (y[i - 1] - 2 * y[i] + y[i + 1]) + rn * (y[i + 1]
                - y[i - 1]);
            assert(0 < rd * i && rn * (i - 1) >= 0 && (rd - 2 * rn) * i >= 0 && rn * (i + 1) >= 0
                && rn * (i - 1) + (rd - 2 * rn) * i + rn * (i + 1) == rd * i) by (nonlinear_arith)
                requires
                    0 < rd,
                    0 <= 2 * rn <= rd,
                    1 <= i,
            ;
            assert(y[i] * rd * i == ((rd - 2 * rn) * i) * y[i] + (2 * rn * i) * y[i])
                by (nonlinear_arith);
            assert(rn * i * (y[i - 1] - 2 * y[i] + y[i + 1]) == (rn * i) * y[i - 1] - (2 * rn * i)
                * y[i] + (rn * i) * y[i + 1]) by (nonlinear_arith);
            assert(rn * (y[i + 1] - y[i - 1]) == rn * y[i + 1] - rn * y[i - 1])
                by (nonlinear_arith);
            assert((rn * i) * y[i - 1] - rn * y[i - 1] == (rn * (i - 1)) * y[i - 1])
                by (nonlinear_arith);
            assert((rn * i) * y[i + 1] + rn * y[i + 1] == (rn * (i + 1)) * y[i + 1])
                by (nonlinear_arith);
            lemma_weighted3_bounds(
                rn * (i - 1),
                (rd - 2 * rn) * i,
                rn * (i + 1),
                y[i - 1],
                y[i],
                y[i + 1],
                -b,
                b,
                rd * i,
            );
            lemma_fdiv_bounds(num, rd * i, -b, b);
        }
    }
}

/// The magnitude of an integer.
pub open spec fn abs1(x: int) -> int {
    if x < 0 {
        -x
    } else {
        x
    }
}

} // verus!
