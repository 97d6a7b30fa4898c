//! Open-circuit-voltage curves for the two electrode chemistries of an
//! LG MJ1 18650 cell: a graphite/silicon negative electrode and an NMC811
//! positive electrode. Each curve maps the normalized surface lithium
//! fraction (scale `SCALE`, clamped into `[0, SCALE]`) to a potential in
//! microvolts, through fixed-point evaluations of the published empirical
//! fits; the coefficients are the fit constants scaled by `10^8`.
use vstd::prelude::*;

verus! {

use crate::approx::{exp_neg, spec_exp_neg, spec_tanh, tanh_fixed, SCALE};
use crate::numeric::{fdiv, floor_div, mul_div};

/// Coefficient scale for the empirical fit constants.
pub const COEFF_DEN: i64 = 100_000_000;

/// The electrode chemistry whose equilibrium potential curve an electrode
/// uses; selected when the electrode is built, so new chemistries slot in
/// without touching the kinetics or the simulation loop.
#[derive(Clone, Copy, PartialEq, Eq, Structural, Debug)]
pub enum OcvCurve {
    GraphiteSilicon,
    Nmc811,
}

/// Clamps a raw surface fraction `c / c_max` into `[0, SCALE]`.
pub open spec fn spec_surface_fraction(c: int, c_max: int) -> int {
    let x = fdiv(c * (SCALE as int), c_max);
    if x < 0 {
        0
    } else if x > SCALE {
        SCALE as int
    } else {
        x
    }
}

/// The graphite/silicon fit: one decaying exponential and three tanh
/// plateaus.
pub open spec fn spec_ocv_graphite_si(x: int) -> int {
    let e = spec_exp_neg(fdiv(5_622_974_200 * x, COEFF_DEN as int));
    let t4 = spec_tanh(fdiv(4_925_813_910 * x, COEFF_DEN as int) - 601_178);
    let t7 = spec_tanh(fdiv(1_796_312_460 * x, COEFF_DEN as int) - 3_148_634);
    let t10 = spec_tanh(fdiv(3_032_553_340 * x, COEFF_DEN as int) - 14_141_646);
    fdiv(120_912_055 * e, COEFF_DEN as int) + (-111_020) - fdiv(
        (-25_345_821) * t4,
        COEFF_DEN as int,
    ) - fdiv(4_735_386 * t7, COEFF_DEN as int) - fdiv(1_880_389 * t10, COEFF_DEN as int)
}

/// The NMC811 fit: a linear slope and three tanh plateaus.
pub open spec fn spec_ocv_nmc811(x: int) -> int {
    let t3 = spec_tanh(fdiv(1_816_841_489 * x, COEFF_DEN as int) - 9_713_412);
    let t6 = spec_tanh(fdiv(1_459_709_162 * x, COEFF_DEN as int) - 4_209_122);
    let t9 = spec_tanh(fdiv(1_469_911_523 * x, COEFF_DEN as int) - 4_240_054);
    -fdiv(74_041_974 * x, COEFF_DEN as int) + 4_391_073 - fdiv(3_434_767 * t3, COEFF_DEN as int)
        - fdiv(1_768_283_504 * t6, COEFF_DEN as int) + fdiv(1_758_474_971 * t9, COEFF_DEN as int)
}

/// The curve selected by an `OcvCurve` value, on a clamped fraction.
pub open spec fn spec_open_circuit_voltage(curve: OcvCurve, x: int) -> int {
    match curve {
        OcvCurve::GraphiteSilicon => spec_ocv_graphite_si(x),
        OcvCurve::Nmc811 => spec_ocv_nmc811(x),
    }
}

/// The normalized surface fraction `c / c_max`, clamped into `[0, SCALE]`.
pub fn surface_fraction(c: i64, c_max: i64) -> (x: i64)
    requires
        1 <= c_max,
    ensures
        x == spec_surface_fraction(c as int, c_max as int),
        0 <= x <= SCALE,
{
    proof {
        assert(i128::MIN < (c as int) * (SCALE as int) < i128::MAX) by (nonlinear_arith)
            requires
                i64::MIN <= c <= i64::MAX,
                SCALE == 1_000_000,
        ;
    }
    let q: i128 = floor_div((c as i128) * (SCALE as i128), c_max as i128);
    if q < 0 {
        0
    } else if q > SCALE as i128 {
        SCALE
    } else {
        q as i64
    }
}

/// Open-circuit voltage of the graphite/silicon electrode in microvolts,
/// for a clamped surface fraction.
pub fn ocv_graphite_si_at(x: i64) -> (v: i64)
    requires
        0 <= x <= SCALE,
    ensures
        v == spec_ocv_graphite_si(x as int),
        -3_000_000 <= v <= 3_000_000,
{
    let e: i64 = exp_neg(mul_div(5_622_974_200, x, COEFF_DEN));
    let t4: i64 = tanh_fixed(mul_div(4_925_813_910, x, COEFF_DEN) - 601_178);
    let t7: i64 = tanh_fixed(mul_div(1_796_312_460, x, COEFF_DEN) - 3_148_634);
    let t10: i64 = tanh_fixed(mul_div(3_032_553_340, x, COEFF_DEN) - 14_141_646);
    mul_div(120_912_055, e, COEFF_DEN) + (-111_020) - mul_div(-25_345_821, t4, COEFF_DEN)
        - mul_div(4_735_386, t7, COEFF_DEN) - mul_div(1_880_389, t10, COEFF_DEN)
}

/// Open-circuit voltage of the NMC811 electrode in microvolts, for a
/// clamped surface fraction.
pub fn ocv_nmc811_at(x: i64) -> (v: i64)
    requires
        0 <= x <= SCALE,
    ensures
        v == spec_ocv_nmc811(x as int),
        -50_000_000 <= v <= 50_000_000,
{
    let t3: i64 = tanh_fixed(mul_div(1_816_841_489, x, COEFF_DEN) - 9_713_412);
    let t6: i64 = tanh_fixed(mul_div(1_459_709_162, x, COEFF_DEN) - 4_209_122);
    let t9: i64 = tanh_fixed(mul_div(1_469_911_523, x, COEFF_DEN) - 4_240_054);
    -mul_div(74_041_974, x, COEFF_DEN) + 4_391_073 - mul_div(3_434_767, t3, COEFF_DEN) - mul_div(
        1_768_283_504,
        t6,
        COEFF_DEN,
    ) + mul_div(1_758_474_971, t9, COEFF_DEN)
}

/// Open-circuit voltage of the graphite/silicon negative electrode in
/// microvolts, read off a particle's surface node and saturation
/// concentration.
pub fn open_circuit_voltage_graphite_si(particle: &crate::model::Particle) -> (v: i64)
    requires
        particle.wf(),
    ensures
        v == spec_ocv_graphite_si(
            spec_surface_fraction(
                particle.concentration@[particle.concentration@.len() - 1] as int,
                particle.concentration_max as int,
            ),
        ),
{
    let last: usize = particle.concentration.len() - 1;
    let x: i64 = surface_fraction(particle.concentration[last], particle.concentration_max);
    ocv_graphite_si_at(x)
}

/// Open-circuit voltage of the NMC811 positive electrode in microvolts,
/// read off a particle's surface node and saturation concentration.
pub fn open_circuit_voltage_nmc811(particle: &crate::model::Particle) -> (v: i64)
    requires
        particle.wf(),
    ensures
        v == spec_ocv_nmc811(
            spec_surface_fraction(
                particle.concentration@[particle.concentration@.len() - 1] as int,
                particle.concentration_max as int,
            ),
        ),
{
    let last: usize = particle.concentration.len() - 1;
    let x: i64 = surface_fraction(particle.concentration[last], particle.concentration_max);
    ocv_nmc811_at(x)
}

impl OcvCurve {
    /// Evaluates this chemistry's equilibrium potential at a clamped
    /// surface fraction, in microvolts.
    pub fn open_circuit_voltage(&self, x: i64) -> (v: i64)
        requires
            0 <= x <= SCALE,
        ensures
            v == spec_open_circuit_voltage(*self, x as int),
            -50_000_000 <= v <= 50_000_000,
    {
        match self {
            OcvCurve::GraphiteSilicon => ocv_graphite_si_at(x),
            OcvCurve::Nmc811 => ocv_nmc811_at(x),
        }
    }
}

} // verus!
