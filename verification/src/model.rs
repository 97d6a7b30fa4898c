//! The cell model: particles, electrolyte, electrodes, the electrochemical
//! kinetics, and the simulation loop that couples them. All quantities are
//! scaled integers (see the crate root for the unit conventions); every
//! public function's result is pinned to a spec-level mirror of the same
//! arithmetic, so the whole per-step update of `simulate` is specified
//! exactly.
use vstd::prelude::*;

verus! {

use crate::approx::{arcsinh, spec_arcsinh, SCALE};
use crate::math::{
    forward_time_centered_space_linear, forward_time_centered_space_radial, ftcs_stable,
    linear_stepped, radial_stepped, spec_ftcs_stable, to_ints, CONC_LIMIT, FLUX_STEP_LIMIT,
};
use crate::numeric::{clip, clip_to_i64, fdiv, floor_div, mul_div, spec_isqrt, isqrt};
use crate::ocv::{spec_open_circuit_voltage, spec_surface_fraction, surface_fraction, OcvCurve};
use crate::{ELECTROLYTE_DISCRETISATION, PARTICLE_DISCRETISATION};

/// The Faraday constant, 96485.332 C/mol, held as millicoulombs per mole.
pub const FARADAY_MILLI: i64 = 96_485_332;

/// `2 * (1 - t_plus) * R * T / F` with the cation transference number
/// `t_plus = 0.2594`, the gas constant `R = 8.31446261815324 J/(mol*K)`
/// and `T = 298.15 K`: the electrolyte concentration-overpotential
/// coefficient, in volts per (mol/m^3), scaled by `10^12`.
pub const ETA_CONC_COEFF: i64 = 38_055_848_194;

/// `2 * R * T / F` at `T = 298.15 K`, in volts, scaled by `10^12`: the
/// Butler-Volmer prefactor.
pub const BV_PREFACTOR: i64 = 51_385_158_242;

/// `reaction_rate * sqrt(c_electrolyte)` for the fixed kinetics constants
/// `reaction_rate = 1e-3` and `c_electrolyte = 1000 mol/m^3`: the square
/// root, `sqrt(1000)`, scaled by `10^6` (the `1e-3` rate is folded into
/// the exchange-current denominator).
pub const SQRT_KINETIC_CONC: i64 = 31_622_776;

/// Largest applied current accepted by a run, in milliamperes.
pub const CURRENT_LIMIT: i64 = 1_000_000_000;

/// Saturation bound for current densities (micro-amperes per m^2) and
/// Butler-Volmer arguments.
pub const RATE_LIMIT: i64 = 1_000_000_000_000_000_000;

/// Saturation bound for molar fluxes, in picomoles per second and m^2
/// (one mol/(s*m^2), orders of magnitude past any physical flux).
pub const FLUX_SATURATION: i64 = 1_000_000_000_000;

/// The single representative spherical active-material particle of one
/// electrode: radius and radial step in nanometres, solid diffusivity in
/// nm^2/s, and the radial concentration field in concentration units
/// (micro mol/m^3), node 0 at the centre and the last node at the surface.
#[derive(Debug)]
pub struct Particle {
    pub radius: u64,
    pub dr: u64,
    pub diffusion_coeff: u64,
    pub concentration: Vec<i64>,
    pub concentration_max: i64,
    pub concentration_init: i64,
}

impl Particle {
    /// Geometry, diffusivity and field sizes the solver arithmetic needs.
    pub open spec fn wf(&self) -> bool {
        &&& 20 <= self.radius <= 20_000_000
        &&& self.dr == self.radius / 20
        &&& 1 <= self.diffusion_coeff <= 1_000_000_000_000_000_000
        &&& self.concentration@.len() == PARTICLE_DISCRETISATION
        &&& 1 <= self.concentration_max <= 1_000_000_000_000_000
        &&& forall|i: int|
            0 <= i < self.concentration@.len() ==> -CONC_LIMIT <= #[trigger] self.concentration@[i]
                <= CONC_LIMIT
    }

    /// Builds a particle with a uniform initial concentration field.
    pub fn new(radius: u64, diffusion_coeff: u64, concentration_max: i64, concentration_init: i64)
        -> (p: Particle)
        requires
            20 <= radius <= 20_000_000,
            1 <= diffusion_coeff <= 1_000_000_000_000_000_000,
            1 <= concentration_max <= 1_000_000_000_000_000,
            -CONC_LIMIT <= concentration_init <= CONC_LIMIT,
        ensures
            p.wf(),
            p.radius == radius,
            p.dr == radius / 20,
            p.diffusion_coeff == diffusion_coeff,
            p.concentration_max == concentration_max,
            p.concentration_init == concentration_init,
            p.concentration@.len() == PARTICLE_DISCRETISATION,
            forall|i: int|
                0 <= i < p.concentration@.len() ==> #[trigger] p.concentration@[i]
                    == concentration_init,
    {
        let dr: u64 = radius / 20;
        let concentration: Vec<i64> = uniform_field(concentration_init, PARTICLE_DISCRETISATION);
        Particle {
            radius,
            dr,
            diffusion_coeff,
            concentration,
            concentration_max,
            concentration_init,
        }
    }
}

/// The 1-D lithium-ion concentration field across the electrolyte gap:
/// node 0 on the negative-electrode side, the last node on the positive
/// side. Thickness in nanometres, diffusivity in nm^2/s, conductivity in
/// micro-siemens per metre (carried for completeness; no ohmic term is
/// modelled).
#[derive(Debug)]
pub struct Electrolyte {
    pub concentration: Vec<i64>,
    pub conductivity: u64,
    pub diffusion_coeff: u64,
    pub thickness: u64,
}

impl Electrolyte {
    pub open spec fn wf(&self) -> bool {
        &&& self.concentration@.len() == ELECTROLYTE_DISCRETISATION
        &&& 1 <= self.diffusion_coeff <= 1_000_000_000_000_000_000
        &&& 20 <= self.thickness <= 20_000_000
        &&& forall|i: int|
            0 <= i < self.concentration@.len() ==> -CONC_LIMIT <= #[trigger] self.concentration@[i]
                <= CONC_LIMIT
    }
}

/// Electrode-level geometry around one particle: sheet height and width in
/// micrometres, coating thickness in nanometres, the active-material
/// volume fraction in parts per million, and the chemistry's open-circuit
/// voltage curve.
#[derive(Debug)]
pub struct Electrode {
    pub height: u64,
    pub width: u64,
    pub thickness: u64,
    pub particle: Particle,
    pub active_material_volume_fraction: u64,
    pub ocv: OcvCurve,
}

impl Electrode {
    pub open spec fn wf(&self) -> bool {
        &&& 1 <= self.height <= 1_000_000_000
        &&& 1 <= self.width <= 1_000_000_000
        &&& 1 <= self.thickness <= 1_000_000_000
        &&& self.active_material_volume_fraction <= 1_000_000
        &&& self.particle.wf()
    }
}

/// The physical domain whose stability check failed.
#[derive(Clone, Copy, PartialEq, Eq, Structural, Debug)]
pub enum StabilityDomain {
    NegativeParticle,
    PositiveParticle,
    Electrolyte,
}

/// Why a simulation run was rejected; every variant is detected before
/// any concentration field is touched.
#[derive(Clone, Copy, PartialEq, Eq, Structural, Debug)]
pub enum SimulationError {
    /// The time and current series have different lengths.
    MismatchedLengths,
    /// The time series is not strictly increasing.
    NonIncreasingTime,
    /// The current series is empty.
    EmptyCurrentSeries,
    /// A single sample defines no timestep to integrate with.
    TooFewSamples,
    /// The spacing between consecutive time samples is not constant.
    NonUniformTimestep,
    /// A current sample, or the concentrations it could drive over the
    /// requested number of steps, exceeds what the solver's fixed-width
    /// arithmetic accepts.
    OutOfRangeInput,
    /// The explicit scheme's stability bound fails for this domain.
    NumericalInstability(StabilityDomain),
}

/// A vector of `n` copies of `v`.
fn uniform_field(v: i64, n: usize) -> (r: Vec<i64>)
    ensures
        r@.len() == n,
        forall|i: int| 0 <= i < n ==> #[trigger] r@[i] == v,
{
    let mut r: Vec<i64> = Vec::new();
    let mut k: usize = 0;
    while k < n
        invariant
            k <= n,
            r@.len() == k,
            forall|i: int| 0 <= i < k ==> #[trigger] r@[i] == v,
        decreases n - k,
    {
        r.push(v);
        k = k + 1;
    }
    r
}

/// An element-for-element copy of a concentration field.
fn copy_field(v: &Vec<i64>) -> (r: Vec<i64>)
    ensures
        r@ == v@,
{
    let mut r: Vec<i64> = Vec::new();
    let mut k: usize = 0;
    while k < v.len()
        invariant
            k <= v@.len(),
            r@ == v@.subrange(0, k as int),
        decreases v@.len() - k,
    {
        r.push(v[k]);
        proof {
            assert(r@ =~= v@.subrange(0, k as int + 1));
        }
        k = k + 1;
    }
    proof {
        assert(r@ =~= v@);
    }
    r
}

/// The top-level cell model: both electrodes, the electrolyte, an optional
/// diagnostic history of electrolyte snapshots, and the flag (fixed at
/// construction) saying whether `simulate` records that history.
#[derive(Debug)]
pub struct SPMeModel {
    pub negative_electrode: Electrode,
    pub positive_electrode: Electrode,
    pub electrolyte: Electrolyte,
    pub concentration: Vec<Vec<i64>>,
    pub record_history: bool,
}

/// `3 * volume_fraction / radius`: the specific interfacial surface area
/// in 1/m, under the monodisperse-sphere assumption.
pub open spec fn spec_interfacial_area(e: Electrode) -> int {
    fdiv(3000 * e.active_material_volume_fraction, e.particle.radius as int)
}

/// Applied current over electrode sheet area, in micro-amperes per m^2,
/// saturated at `RATE_LIMIT`.
pub open spec fn spec_current_density(e: Electrode, current: int) -> int {
    clip(fdiv(current * 1_000_000_000_000_000, e.height * e.width), RATE_LIMIT as int)
}

/// Molar flux into the particle surface driven by the applied current,
/// in picomoles per second and m^2 of particle surface.
pub open spec fn spec_particle_surface_flux(e: Electrode, current: int) -> int {
    let j = spec_current_density(e, current);
    let den = (FARADAY_MILLI as int) * spec_interfacial_area(e) * e.thickness;
    if den == 0 {
        if j > 0 {
            FLUX_SATURATION as int
        } else if j < 0 {
            -FLUX_SATURATION as int
        } else {
            0
        }
    } else {
        clip(fdiv(j * 1_000_000_000_000_000_000, den), FLUX_SATURATION as int)
    }
}

/// Molar flux driving the electrolyte boundary, referenced to the given
/// electrode's sheet area, in picomoles per second and m^2.
pub open spec fn spec_electrolyte_boundary_flux(e: Electrode, current: int) -> int {
    clip(
        fdiv(spec_current_density(e, current) * 1_000_000_000, FARADAY_MILLI as int),
        FLUX_SATURATION as int,
    )
}

/// The Butler-Volmer reaction overpotential in microvolts, negated
/// because positive current denotes charging, written over the scalar
/// quantities it reads: the saturation concentration, the surface-node
/// concentration, the specific interfacial area, the electrode thickness
/// and the current density. The exchange current density comes from the
/// fixed rate constant and the square roots of the electrolyte
/// concentration, the surface concentration, and the unoccupied fraction.
pub open spec fn spec_butler_volmer_parts(
    cmax: int,
    raw_surface: int,
    area: int,
    thickness: int,
    current_density: int,
) -> int {
    let cs = if raw_surface < 0 {
        0
    } else if raw_surface > cmax {
        cmax
    } else {
        raw_surface
    };
    let x = spec_surface_fraction(cs, cmax);
    let i0 = fdiv(
        (SQRT_KINETIC_CONC as int) * spec_isqrt(cs) * spec_isqrt((SCALE - x) * SCALE),
        1_000_000_000_000,
    );
    let den = 2 * i0 * area * thickness;
    let z = if den == 0 {
        if current_density > 0 {
            RATE_LIMIT as int
        } else if current_density < 0 {
            -RATE_LIMIT as int
        } else {
            0
        }
    } else {
        clip(fdiv(current_density * 1_000_000_000_000_000, den), RATE_LIMIT as int)
    };
    -fdiv(spec_arcsinh(z) * BV_PREFACTOR, 1_000_000_000_000)
}

/// The same overpotential read off an electrode's own stored field.
pub open spec fn spec_butler_volmer(e: Electrode, current_density: int) -> int {
    spec_butler_volmer_parts(
        e.particle.concentration_max as int,
        e.particle.concentration@[PARTICLE_DISCRETISATION - 1] as int,
        spec_interfacial_area(e),
        e.thickness as int,
        current_density,
    )
}

/// The Nernst-type overpotential from the concentration difference across
/// the electrolyte field's two boundary nodes, in microvolts.
pub open spec fn spec_eta_conc(ec: Seq<int>) -> int {
    fdiv(
        (ec[ELECTROLYTE_DISCRETISATION - 1] - ec[0]) * (ETA_CONC_COEFF as int),
        1_000_000_000_000,
    )
}

/// The instantaneous cell potential in microvolts, assembled from the two
/// open-circuit voltages, the two reaction overpotentials, and the
/// electrolyte concentration overpotential, for the given field states.
pub open spec fn spec_cell_potential_at(
    m: SPMeModel,
    ec: Seq<int>,
    nc: Seq<int>,
    pc: Seq<int>,
    current: int,
) -> int {
    let j = spec_current_density(m.negative_electrode, current);
    let xn = spec_surface_fraction(
        nc[PARTICLE_DISCRETISATION - 1],
        m.negative_electrode.particle.concentration_max as int,
    );
    let xp = spec_surface_fraction(
        pc[PARTICLE_DISCRETISATION - 1],
        m.positive_electrode.particle.concentration_max as int,
    );
    spec_open_circuit_voltage(m.positive_electrode.ocv, xp) - spec_open_circuit_voltage(
        m.negative_electrode.ocv,
        xn,
    ) - spec_butler_volmer_parts(
        m.negative_electrode.particle.concentration_max as int,
        nc[PARTICLE_DISCRETISATION - 1],
        spec_interfacial_area(m.negative_electrode),
        m.negative_electrode.thickness as int,
        j,
    ) - spec_butler_volmer_parts(
        m.positive_electrode.particle.concentration_max as int,
        pc[PARTICLE_DISCRETISATION - 1],
        spec_interfacial_area(m.positive_electrode),
        m.positive_electrode.thickness as int,
        j,
    ) + spec_eta_conc(ec)
}


impl SPMeModel {
    /// Well-formedness of the whole model.
    pub open spec fn wf(&self) -> bool {
        &&& self.negative_electrode.wf()
        &&& self.positive_electrode.wf()
        &&& self.electrolyte.wf()
    }

    /// The specific interfacial surface area of an electrode in 1/m:
    /// `3 * volume_fraction / particle_radius`, assuming a uniform
    /// distribution of monodisperse spherical particles.
    pub fn specific_interfacial_surface_area(&self, electrode: &Electrode) -> (a: i64)
        requires
            electrode.wf(),
        ensures
            a == spec_interfacial_area(*electrode),
            0 <= a <= 150_000_000,
    {
        proof {
            assert(3000 * (electrode.active_material_volume_fraction as int) <= 150_000_000 * (
            electrode.particle.radius as int)) by (nonlinear_arith)
                requires
                    electrode.active_material_volume_fraction <= 1_000_000,
                    electrode.particle.radius >= 20,
            ;
            crate::numeric::lemma_fdiv_bounds(
                3000 * (electrode.active_material_volume_fraction as int),
                electrode.particle.radius as int,
                0,
                150_000_000,
            );
        }
        let a: u64 = (3000 * electrode.active_material_volume_fraction)
            / electrode.particle.radius;
        a as i64
    }

    /// Applied current over the electrode's sheet area, in micro-amperes
    /// per m^2, saturated at `RATE_LIMIT`.
    pub fn current_density(&self, electrode: &Electrode, current: i64) -> (j: i64)
        requires
            electrode.wf(),
            -CURRENT_LIMIT <= current <= CURRENT_LIMIT,
        ensures
            j == spec_current_density(*electrode, current as int),
            -RATE_LIMIT <= j <= RATE_LIMIT,
    {
        proof {
            assert(1 <= (electrode.height as int) * (electrode.width as int)
                <= 1_000_000_000_000_000_000) by (nonlinear_arith)
                requires
                    1 <= electrode.height <= 1_000_000_000,
                    1 <= electrode.width <= 1_000_000_000,
            ;
        }
        let area: i128 = (electrode.height as i128) * (electrode.width as i128);
        let num: i128 = (current as i128) * 1_000_000_000_000_000;
        clip_to_i64(floor_div(num, area), RATE_LIMIT)
    }

    /// Molar flux into the particle surface from the applied current, in
    /// picomoles per second and m^2 of particle surface: the current
    /// density divided by the Faraday constant, the specific interfacial
    /// area and the electrode thickness.
    pub fn particle_surface_flux(&self, current: i64, electrode: &Electrode) -> (f: i64)
        requires
            electrode.wf(),
            -CURRENT_LIMIT <= current <= CURRENT_LIMIT,
        ensures
            f == spec_particle_surface_flux(*electrode, current as int),
            -FLUX_SATURATION <= f <= FLUX_SATURATION,
    {
        let j: i64 = self.current_density(electrode, current);
        let a: i64 = self.specific_interfacial_surface_area(electrode);
        proof {
            assert(0 <= (FARADAY_MILLI as int) * (a as int) <= 20_000_000_000_000_000
                * 1_000_000_000) by (nonlinear_arith)
                requires
                    0 <= a <= 150_000_000,
                    FARADAY_MILLI == 96_485_332,
            ;
            assert(0 <= ((FARADAY_MILLI as int) * (a as int)) * (electrode.thickness as int)
                <= 20_000_000_000_000_000_000_000_000_000_000_000) by (nonlinear_arith)
                requires
                    0 <= (FARADAY_MILLI as int) * (a as int) <= 20_000_000_000_000_000
                        * 1_000_000_000,
                    1 <= electrode.thickness <= 1_000_000_000,
            ;
        }
        let den: i128 = (FARADAY_MILLI as i128) * (a as i128) * (electrode.thickness as i128);
        if den == 0 {
            if j > 0 {
                FLUX_SATURATION
            } else if j < 0 {
                -FLUX_SATURATION
            } else {
                0
            }
        } else {
            clip_to_i64(floor_div((j as i128) * 1_000_000_000_000_000_000, den), FLUX_SATURATION)
        }
    }

    /// Molar flux driving the electrolyte boundary, referenced to the
    /// negative electrode's sheet area: current density over the Faraday
    /// constant, in picomoles per second and m^2.
    pub fn electrolyte_boundary_flux(&self, current: i64) -> (f: i64)
        requires
            self.negative_electrode.wf(),
            -CURRENT_LIMIT <= current <= CURRENT_LIMIT,
        ensures
            f == spec_electrolyte_boundary_flux(self.negative_electrode, current as int),
            -FLUX_SATURATION <= f <= FLUX_SATURATION,
    {
        let j: i64 = self.current_density(&self.negative_electrode, current);
        clip_to_i64(
            floor_div((j as i128) * 1_000_000_000, FARADAY_MILLI as i128),
            FLUX_SATURATION,
        )
    }

    /// The Butler-Volmer reaction overpotential of one electrode, in
    /// microvolts: `-(2*R*T/F) * arcsinh(j / (2 * i0 * a * L))`, negated
    /// because positive current denotes charging. The exchange current
    /// density `i0` uses the electrode's surface concentration (clamped
    /// into its physical range) and the fixed electrolyte-concentration
    /// and rate constants; where it vanishes, the argument saturates.
    pub fn butler_volmer_overpotential(&self, current_density: i64, electrode: &Electrode) -> (r:
        i64)
        requires
            electrode.wf(),
            -RATE_LIMIT <= current_density <= RATE_LIMIT,
        ensures
            r == spec_butler_volmer(*electrode, current_density as int),
            -3_000_000 <= r <= 3_000_000,
    {
        let cmax: i64 = electrode.particle.concentration_max;
        let raw: i64 = electrode.particle.concentration[PARTICLE_DISCRETISATION - 1];
        let cs: i64 = if raw < 0 {
            0
        } else if raw > cmax {
            cmax
        } else {
            raw
        };
        let x: i64 = surface_fraction(cs, cmax);
        let av: u128 = isqrt(cs as u128);
        let bv: u128 = isqrt((((SCALE - x) as u128)) * (SCALE as u128));
        proof {
            if av > 31_622_776 {
                assert((av as int) * (av as int) > 1_000_000_000_000_000) by (nonlinear_arith)
                    requires
                        av as int > 31_622_776,
                ;
            }
            if bv > 1_000_000 {
                assert((bv as int) * (bv as int) > 1_000_000_000_000) by (nonlinear_arith)
                    requires
                        bv as int > 1_000_000,
                ;
                assert(((SCALE - x) as int) * (SCALE as int) <= 1_000_000_000_000)
                    by (nonlinear_arith)
                    requires
                        0 <= x <= SCALE,
                        SCALE == 1_000_000,
                ;
            }
            assert(0 <= (SQRT_KINETIC_CONC as int) * (av as int) <= 31_622_776 * 31_622_776)
                by (nonlinear_arith)
                requires
                    0 <= av as int <= 31_622_776,
                    SQRT_KINETIC_CONC == 31_622_776,
            ;
            assert(0 <= ((SQRT_KINETIC_CONC as int) * (av as int)) * (bv as int) <= (31_622_776
                * 31_622_776) * 1_000_000) by (nonlinear_arith)
                requires
                    0 <= (SQRT_KINETIC_CONC as int) * (av as int) <= 31_622_776 * 31_622_776,
                    0 <= bv as int <= 1_000_000,
            ;
            crate::numeric::lemma_fdiv_bounds(
                (SQRT_KINETIC_CONC as int) * (av as int) * (bv as int),
                1_000_000_000_000,
                0,
                1_000_000_000_000,
            );
        }
        let i0: i64 = floor_div(
            (SQRT_KINETIC_CONC as i128) * (av as i128) * (bv as i128),
            1_000_000_000_000,
        ) as i64;
        let a: i64 = self.specific_interfacial_surface_area(electrode);
        proof {
            assert(0 <= 2 * (i0 as int) * (a as int) <= 2_000_000_000_000 * 150_000_000)
                by (nonlinear_arith)
                requires
                    0 <= i0 <= 1_000_000_000_000,
                    0 <= a <= 150_000_000,
            ;
            assert(0 <= (2 * (i0 as int) * (a as int)) * (electrode.thickness as int)
                <= 300_000_000_000_000_000_000 * 1_000_000_000) by (nonlinear_arith)
                requires
                    0 <= 2 * (i0 as int) * (a as int) <= 300_000_000_000_000_000_000,
                    1 <= electrode.thickness <= 1_000_000_000,
            ;
        }
        let den: i128 = 2 * (i0 as i128) * (a as i128) * (electrode.thickness as i128);
        let z: i64 = if den == 0 {
            if current_density > 0 {
                RATE_LIMIT
            } else if current_density < 0 {
                -RATE_LIMIT
            } else {
                0
            }
        } else {
            clip_to_i64(floor_div((current_density as i128) * 1_000_000_000_000_000, den), RATE_LIMIT)
        };
        let h: i64 = arcsinh(z);
        proof {
            crate::numeric::lemma_fdiv_bounds(
                (h as int) * (BV_PREFACTOR as int),
                1_000_000_000_000,
                -3_000_000,
                3_000_000,
            );
        }
        -mul_div(h, BV_PREFACTOR, 1_000_000_000_000)
    }

    /// The electrolyte concentration overpotential in microvolts, driven
    /// purely by the concentration difference between the two boundary
    /// nodes of the electrolyte field.
    pub fn electrolyte_concentration_overpotential(&self) -> (r: i64)
        requires
            self.electrolyte.wf(),
        ensures
            r == spec_eta_conc(to_ints(self.electrolyte.concentration@)),
            -400_000_000_000_000_000 <= r <= 400_000_000_000_000_000,
    {
        let last: usize = ELECTROLYTE_DISCRETISATION - 1;
        let d: i128 = (self.electrolyte.concentration[last] as i128) - (
        self.electrolyte.concentration[0] as i128);
        proof {
            assert(-400_000_000_000_000_000 * 1_000_000_000_000 <= (d as int) * (
            ETA_CONC_COEFF as int) <= 400_000_000_000_000_000 * 1_000_000_000_000)
                by (nonlinear_arith)
                requires
                    -8_000_000_000_000_000_000 <= d as int <= 8_000_000_000_000_000_000,
                    ETA_CONC_COEFF == 38_055_848_194,
            ;
            crate::numeric::lemma_fdiv_bounds(
                (d as int) * (ETA_CONC_COEFF as int),
                1_000_000_000_000,
                -400_000_000_000_000_000,
                400_000_000_000_000_000,
            );
        }
        floor_div(d * (ETA_CONC_COEFF as i128), 1_000_000_000_000) as i64
    }

    /// The instantaneous cell potential in microvolts: the open-circuit
    /// voltage difference of the two electrodes, less both reaction
    /// overpotentials, plus the electrolyte concentration overpotential.
    pub fn cell_potential(&self, current: i64) -> (v: i64)
        requires
            self.wf(),
            -CURRENT_LIMIT <= current <= CURRENT_LIMIT,
        ensures
            v == spec_cell_potential_at(
                *self,
                to_ints(self.electrolyte.concentration@),
                to_ints(self.negative_electrode.particle.concentration@),
                to_ints(self.positive_electrode.particle.concentration@),
                current as int,
            ),
            -1_000_000_000_000_000_000 <= v <= 1_000_000_000_000_000_000,
    {
        let j: i64 = self.current_density(&self.negative_electrode, current);
        let xn: i64 = surface_fraction(
            self.negative_electrode.particle.concentration[PARTICLE_DISCRETISATION - 1],
            self.negative_electrode.particle.concentration_max,
        );
        let xp: i64 = surface_fraction(
            self.positive_electrode.particle.concentration[PARTICLE_DISCRETISATION - 1],
            self.positive_electrode.particle.concentration_max,
        );
        let vn: i64 = self.negative_electrode.ocv.open_circuit_voltage(xn);
        let vp: i64 = self.positive_electrode.ocv.open_circuit_voltage(xp);
        let bvn: i64 = self.butler_volmer_overpotential(j, &self.negative_electrode);
        let bvp: i64 = self.butler_volmer_overpotential(j, &self.positive_electrode);
        let eta: i64 = self.electrolyte_concentration_overpotential();
        vp - vn - bvn - bvp + eta
    }
}


impl Default for SPMeModel {
    /// Default parameters for an LG MJ1 18650 cylindrical cell, with the
    /// diagnostic history off and holding the initial electrolyte snapshot.
    fn default() -> (m: SPMeModel)
        ensures
            m.wf(),
            m.negative_electrode.height == 59_000,
            m.negative_electrode.width == 1_220_000,
            m.negative_electrode.thickness == 86_700,
            m.negative_electrode.active_material_volume_fraction == 694_000,
            m.negative_electrode.ocv == OcvCurve::GraphiteSilicon,
            m.negative_electrode.particle.radius == 6_100,
            m.negative_electrode.particle.dr == 305,
            m.negative_electrode.particle.diffusion_coeff == 50_000,
            m.negative_electrode.particle.concentration_max == 34_684_000_000,
            m.negative_electrode.particle.concentration_init == 1_000_000_000,
            m.positive_electrode.height == 59_000,
            m.positive_electrode.width == 1_220_000,
            m.positive_electrode.thickness == 66_200,
            m.positive_electrode.active_material_volume_fraction == 754_000,
            m.positive_electrode.ocv == OcvCurve::Nmc811,
            m.positive_electrode.particle.radius == 3_800,
            m.positive_electrode.particle.dr == 190,
            m.positive_electrode.particle.diffusion_coeff == 50_000,
            m.positive_electrode.particle.concentration_max == 50_060_000_000,
            m.positive_electrode.particle.concentration_init == 49_000_000_000,
            m.electrolyte.conductivity == 800_000,
            m.electrolyte.diffusion_coeff == 170_000_000,
            m.electrolyte.thickness == 12_000,
            forall|i: int|
                0 <= i < m.negative_electrode.particle.concentration@.len()
                    ==> #[trigger] m.negative_electrode.particle.concentration@[i]
                    == 1_000_000_000,
            forall|i: int|
                0 <= i < m.positive_electrode.particle.concentration@.len()
                    ==> #[trigger] m.positive_electrode.particle.concentration@[i]
                    == 49_000_000_000,
            forall|i: int|
                0 <= i < m.electrolyte.concentration@.len()
                    ==> #[trigger] m.electrolyte.concentration@[i] == 1_000_000_000,
            m.concentration@.len() == 1,
            m.concentration@[0]@.len() == ELECTROLYTE_DISCRETISATION,
            forall|i: int|
                0 <= i < ELECTROLYTE_DISCRETISATION ==> #[trigger] m.concentration@[0]@[i]
                    == 1_000_000_000,
            !m.record_history,
    {
        let electrolyte_field: Vec<i64> = uniform_field(
            1_000_000_000,
            ELECTROLYTE_DISCRETISATION,
        );
        let snapshot: Vec<i64> = uniform_field(1_000_000_000, ELECTROLYTE_DISCRETISATION);
        let mut history: Vec<Vec<i64>> = Vec::new();
        history.push(snapshot);
        SPMeModel {
            negative_electrode: Electrode {
                height: 59_000,  // 0.059 m
                width: 1_220_000,  // 1.22 m
                thickness: 86_700,  // 86.7e-6 m
                particle: Particle::new(
                    6_100,  // 6.1e-6 m
                    50_000,  // 5e-14 m^2/s
                    34_684_000_000,  // 34684 mol/m^3
                    1_000_000_000,  // 1000 mol/m^3
                ),
                active_material_volume_fraction: 694_000,  // 0.694
                ocv: OcvCurve::GraphiteSilicon,
            },
            positive_electrode: Electrode {
                height: 59_000,
                width: 1_220_000,
                thickness: 66_200,  // 66.2e-6 m
                particle: Particle::new(
                    3_800,  // 3.8e-6 m
                    50_000,
                    50_060_000_000,  // 50060 mol/m^3
                    49_000_000_000,  // 49000 mol/m^3
                ),
                active_material_volume_fraction: 754_000,  // 0.754
                ocv: OcvCurve::Nmc811,
            },
            electrolyte: Electrolyte {
                concentration: electrolyte_field,
                conductivity: 800_000,  // 0.8 S/m
                diffusion_coeff: 170_000_000,  // 1.7e-10 m^2/s
                thickness: 12_000,  // 12e-6 m
            },
            concentration: history,
            record_history: false,
        }
    }
}

/// The electrolyte grid step in nanometres.
pub open spec fn spec_dx_e(m: SPMeModel) -> int {
    fdiv(m.electrolyte.thickness as int, ELECTROLYTE_DISCRETISATION as int)
}

/// The per-step electrolyte boundary term in concentration units:
/// `floor(dt * flux / dx)`.
pub open spec fn spec_step_flux_e(m: SPMeModel, dt: int, current: int) -> int {
    fdiv(dt * spec_electrolyte_boundary_flux(m.negative_electrode, current), spec_dx_e(m))
}

/// The per-step negative-particle surface term; the sign is flipped so
/// positive (charging) current inserts lithium into the negative particle.
pub open spec fn spec_step_flux_n(m: SPMeModel, dt: int, current: int) -> int {
    fdiv(
        -(dt * spec_particle_surface_flux(m.negative_electrode, current)),
        m.negative_electrode.particle.dr as int,
    )
}

/// The per-step positive-particle surface term: positive (charging)
/// current draws lithium out of the positive particle.
pub open spec fn spec_step_flux_p(m: SPMeModel, dt: int, current: int) -> int {
    fdiv(
        dt * spec_particle_surface_flux(m.positive_electrode, current),
        m.positive_electrode.particle.dr as int,
    )
}

/// The three concentration fields after `k` timesteps of the coupled
/// update, starting from the fields stored in `m`: electrolyte first,
/// then the negative and positive particle fields.
pub open spec fn spec_states(m: SPMeModel, currents: Seq<int>, dt: int, k: int) -> (
    Seq<int>,
    Seq<int>,
    Seq<int>,
)
    decreases k,
{
    if k <= 0 {
        (
            to_ints(m.electrolyte.concentration@),
            to_ints(m.negative_electrode.particle.concentration@),
            to_ints(m.positive_electrode.particle.concentration@),
        )
    } else {
        let prev = spec_states(m, currents, dt, k - 1);
        let i = currents[k - 1];
        let dxe = spec_dx_e(m);
        let drn = m.negative_electrode.particle.dr as int;
        let drp = m.positive_electrode.particle.dr as int;
        (
            linear_stepped(
                prev.0,
                (m.electrolyte.diffusion_coeff as int) * dt,
                dxe * dxe * 1000,
                spec_step_flux_e(m, dt, i),
            ),
            radial_stepped(
                prev.1,
                (m.negative_electrode.particle.diffusion_coeff as int) * dt,
                drn * drn * 1000,
                spec_step_flux_n(m, dt, i),
            ),
            radial_stepped(
                prev.2,
                (m.positive_electrode.particle.diffusion_coeff as int) * dt,
                drp * drp * 1000,
                spec_step_flux_p(m, dt, i),
            ),
        )
    }
}

/// The cell potential reported for timestep `k`: assembled from the
/// fields after `k + 1` steps and the current at index `k`.
pub open spec fn spec_voltage_at_step(m: SPMeModel, currents: Seq<int>, dt: int, k: int) -> int {
    let st = spec_states(m, currents, dt, k + 1);
    spec_cell_potential_at(m, st.0, st.1, st.2, currents[k])
}

/// The time series is strictly increasing.
pub open spec fn spec_strictly_increasing(t: Seq<u64>) -> bool {
    forall|i: int| 0 <= i < t.len() - 1 ==> #[trigger] t[i] < t[i + 1]
}

/// Consecutive samples are exactly `dt` apart.
pub open spec fn spec_uniform_spacing(t: Seq<u64>, dt: int) -> bool {
    forall|i: int| 0 <= i < t.len() - 1 ==> #[trigger] t[i + 1] - t[i] == dt
}

/// Every current sample is within the solver's accepted range.
pub open spec fn spec_currents_in_range(c: Seq<i64>) -> bool {
    forall|k: int| 0 <= k < c.len() ==> -CURRENT_LIMIT <= #[trigger] c[k] <= CURRENT_LIMIT
}

/// An upper bound on any per-step boundary term a domain can see, given
/// that fluxes saturate at `RATE_LIMIT`.
pub open spec fn spec_flux_cap(dt: int, dx: int) -> int {
    fdiv(dt * (FLUX_SATURATION as int), dx) + 1
}

/// The per-step growth of any field's magnitude bound.
pub open spec fn spec_step_growth(m: SPMeModel, dt: int) -> int {
    let ce = spec_flux_cap(dt, spec_dx_e(m));
    let cn = spec_flux_cap(dt, m.negative_electrode.particle.dr as int);
    let cp = spec_flux_cap(dt, m.positive_electrode.particle.dr as int);
    let mx = if ce >= cn && ce >= cp {
        ce
    } else if cn >= cp {
        cn
    } else {
        cp
    };
    2 * mx + 2
}

/// Every node of every field is within `b` in magnitude.
pub open spec fn spec_fields_within(m: SPMeModel, b: int) -> bool {
    &&& forall|i: int|
        0 <= i < m.electrolyte.concentration@.len() ==> -b
            <= #[trigger] m.electrolyte.concentration@[i] <= b
    &&& forall|i: int|
        0 <= i < m.negative_electrode.particle.concentration@.len() ==> -b
            <= #[trigger] m.negative_electrode.particle.concentration@[i] <= b
    &&& forall|i: int|
        0 <= i < m.positive_electrode.particle.concentration@.len() ==> -b
            <= #[trigger] m.positive_electrode.particle.concentration@[i] <= b
}

/// The run fits the solver's fixed-width arithmetic: every per-step
/// boundary term stays within the integrators' flux bound, and `n` steps
/// of worst-case growth keep every node within the integrators' field
/// bound.
pub open spec fn spec_budget_ok(m: SPMeModel, dt: int, n: int) -> bool {
    &&& spec_flux_cap(dt, spec_dx_e(m)) <= FLUX_STEP_LIMIT as int
    &&& spec_flux_cap(dt, m.negative_electrode.particle.dr as int) <= FLUX_STEP_LIMIT as int
    &&& spec_flux_cap(dt, m.positive_electrode.particle.dr as int) <= FLUX_STEP_LIMIT as int
    &&& spec_fields_within(m, (CONC_LIMIT as int) - n * spec_step_growth(m, dt))
}

/// All configuration of `b` (everything except the three concentration
/// fields and the diagnostic history) equals that of `a`.
pub open spec fn spec_same_params(a: SPMeModel, b: SPMeModel) -> bool {
    &&& a.negative_electrode.height == b.negative_electrode.height
    &&& a.negative_electrode.width == b.negative_electrode.width
    &&& a.negative_electrode.thickness == b.negative_electrode.thickness
    &&& a.negative_electrode.active_material_volume_fraction
        == b.negative_electrode.active_material_volume_fraction
    &&& a.negative_electrode.ocv == b.negative_electrode.ocv
    &&& a.negative_electrode.particle.radius == b.negative_electrode.particle.radius
    &&& a.negative_electrode.particle.dr == b.negative_electrode.particle.dr
    &&& a.negative_electrode.particle.diffusion_coeff
        == b.negative_electrode.particle.diffusion_coeff
    &&& a.negative_electrode.particle.concentration_max
        == b.negative_electrode.particle.concentration_max
    &&& a.negative_electrode.particle.concentration_init
        == b.negative_electrode.particle.concentration_init
    &&& a.positive_electrode.height == b.positive_electrode.height
    &&& a.positive_electrode.width == b.positive_electrode.width
    &&& a.positive_electrode.thickness == b.positive_electrode.thickness
    &&& a.positive_electrode.active_material_volume_fraction
        == b.positive_electrode.active_material_volume_fraction
    &&& a.positive_electrode.ocv == b.positive_electrode.ocv
    &&& a.positive_electrode.particle.radius == b.positive_electrode.particle.radius
    &&& a.positive_electrode.particle.dr == b.positive_electrode.particle.dr
    &&& a.positive_electrode.particle.diffusion_coeff
        == b.positive_electrode.particle.diffusion_coeff
    &&& a.positive_electrode.particle.concentration_max
        == b.positive_electrode.particle.concentration_max
    &&& a.positive_electrode.particle.concentration_init
        == b.positive_electrode.particle.concentration_init
    &&& a.electrolyte.conductivity == b.electrolyte.conductivity
    &&& a.electrolyte.diffusion_coeff == b.electrolyte.diffusion_coeff
    &&& a.electrolyte.thickness == b.electrolyte.thickness
    &&& a.record_history == b.record_history
}


/// Why (if at all) a run of `simulate` on the given series is rejected:
/// the checks in order, each seen only if all earlier ones pass.
pub open spec fn spec_rejection(m: SPMeModel, t: Seq<u64>, c: Seq<i64>) -> Option<SimulationError> {
    if t.len() != c.len() {
        Some(SimulationError::MismatchedLengths)
    } else if !spec_strictly_increasing(t) {
        Some(SimulationError::NonIncreasingTime)
    } else if c.len() == 0 {
        Some(SimulationError::EmptyCurrentSeries)
    } else if c.len() == 1 {
        Some(SimulationError::TooFewSamples)
    } else {
        let dt = t[1] - t[0];
        if !spec_uniform_spacing(t, dt) {
            Some(SimulationError::NonUniformTimestep)
        } else if !(spec_currents_in_range(c) && spec_budget_ok(m, dt, c.len() as int)) {
            Some(SimulationError::OutOfRangeInput)
        } else if !spec_ftcs_stable(
            dt,
            m.negative_electrode.particle.dr as int,
            m.negative_electrode.particle.diffusion_coeff as int,
        ) {
            Some(SimulationError::NumericalInstability(StabilityDomain::NegativeParticle))
        } else if !spec_ftcs_stable(
            dt,
            m.positive_electrode.particle.dr as int,
            m.positive_electrode.particle.diffusion_coeff as int,
        ) {
            Some(SimulationError::NumericalInstability(StabilityDomain::PositiveParticle))
        } else if !spec_ftcs_stable(dt, spec_dx_e(m), m.electrolyte.diffusion_coeff as int) {
            Some(SimulationError::NumericalInstability(StabilityDomain::Electrolyte))
        } else {
            None
        }
    }
}

/// Scans for a strictly increasing time series.
fn check_strictly_increasing(t: &Vec<u64>) -> (r: bool)
    ensures
        r == spec_strictly_increasing(t@),
{
    if t.len() < 2 {
        return true;
    }
    let mut r: bool = true;
    let mut idx: usize = 0;
    while idx < t.len() - 1
        invariant
            t@.len() >= 2,
            idx <= t@.len() - 1,
            r == (forall|j: int| 0 <= j < idx ==> #[trigger] t@[j] < t@[j + 1]),
        decreases t@.len() - idx,
    {
        r = r && (t[idx] < t[idx + 1]);
        idx = idx + 1;
    }
    r
}

/// Scans for exactly `dt` between consecutive samples.
fn check_uniform_spacing(t: &Vec<u64>, dt: u64) -> (r: bool)
    requires
        spec_strictly_increasing(t@),
    ensures
        r == spec_uniform_spacing(t@, dt as int),
{
    if t.len() < 2 {
        return true;
    }
    let mut r: bool = true;
    let mut idx: usize = 0;
    while idx < t.len() - 1
        invariant
            t@.len() >= 2,
            idx <= t@.len() - 1,
            spec_strictly_increasing(t@),
            r == (forall|j: int| 0 <= j < idx ==> #[trigger] t@[j + 1] - t@[j] == dt),
        decreases t@.len() - idx,
    {
        r = r && (t[idx + 1] - t[idx] == dt);
        idx = idx + 1;
    }
    r
}

/// Scans for currents within the accepted range.
fn check_currents_in_range(c: &Vec<i64>) -> (r: bool)
    ensures
        r == spec_currents_in_range(c@),
{
    let mut r: bool = true;
    let mut idx: usize = 0;
    while idx < c.len()
        invariant
            idx <= c@.len(),
            r == (forall|j: int|
                0 <= j < idx ==> -CURRENT_LIMIT <= #[trigger] c@[j] <= CURRENT_LIMIT),
        decreases c@.len() - idx,
    {
        r = r && (c[idx] >= -CURRENT_LIMIT && c[idx] <= CURRENT_LIMIT);
        idx = idx + 1;
    }
    r
}

/// Scans a field for nodes within `b` in magnitude.
fn check_field_within(v: &Vec<i64>, b: i64) -> (r: bool)
    requires
        0 <= b,
    ensures
        r == (forall|i: int| 0 <= i < v@.len() ==> -b <= #[trigger] v@[i] <= b),
{
    let mut r: bool = true;
    let mut idx: usize = 0;
    while idx < v.len()
        invariant
            0 <= b,
            idx <= v@.len(),
            r == (forall|j: int| 0 <= j < idx ==> -b <= #[trigger] v@[j] <= b),
        decreases v@.len() - idx,
    {
        r = r && (v[idx] >= -b && v[idx] <= b);
        idx = idx + 1;
    }
    r
}

impl SPMeModel {
    /// Runs the full input series through the model: validates the series,
    /// checks the explicit scheme's stability for all three domains, then
    /// advances the electrolyte and both particle fields once per sample
    /// and assembles the cell potential, in microvolts, for each index.
    /// Any rejection happens before any field is touched. On success the
    /// result, the final fields, and (when enabled) the recorded history
    /// are all pinned to the spec-level step mirror.
    #[verifier::loop_isolation(false)]
    #[verifier::rlimit(100)]
    pub fn simulate(&mut self, time: &Vec<u64>, current: &Vec<i64>) -> (r: Result<
        Vec<i64>,
        SimulationError,
    >)
        requires
            old(self).wf(),
        ensures
            r is Err ==> *final(self) == *old(self),
            spec_rejection(*old(self), time@, current@) matches Some(e) ==> r == Err::<
                Vec<i64>,
                SimulationError,
            >(e),
            spec_rejection(*old(self), time@, current@) is None ==> r is Ok,
            r matches Ok(v) ==> {
                &&& v@.len() == current@.len()
                &&& forall|k: int|
                    0 <= k < current@.len() ==> #[trigger] v@[k] == spec_voltage_at_step(
                        *old(self),
                        to_ints(current@),
                        time@[1] - time@[0],
                        k,
                    )
                &&& to_ints(final(self).electrolyte.concentration@) == spec_states(
                    *old(self),
                    to_ints(current@),
                    time@[1] - time@[0],
                    current@.len() as int,
                ).0
                &&& to_ints(final(self).negative_electrode.particle.concentration@) == spec_states(
                    *old(self),
                    to_ints(current@),
                    time@[1] - time@[0],
                    current@.len() as int,
                ).1
                &&& to_ints(final(self).positive_electrode.particle.concentration@) == spec_states(
                    *old(self),
                    to_ints(current@),
                    time@[1] - time@[0],
                    current@.len() as int,
                ).2
                &&& spec_same_params(*final(self), *old(self))
                &&& final(self).wf()
                &&& !old(self).record_history ==> final(self).concentration
                    == old(self).concentration
                &&& old(self).record_history ==> final(self).concentration@.len()
                    == old(self).concentration@.len() + current@.len()
                &&& old(self).record_history ==> forall|k: int|
                    0 <= k < current@.len() ==> to_ints(
                        #[trigger] final(self).concentration@[old(self).concentration@.len() + k]@,
                    ) == spec_states(
                        *old(self),
                        to_ints(current@),
                        time@[1] - time@[0],
                        k + 1,
                    ).0
            },
    {
        let ghost m0 = *old(self);
        if time.len() != current.len() {
            return Err(SimulationError::MismatchedLengths);
        }
        if !check_strictly_increasing(time) {
            return Err(SimulationError::NonIncreasingTime);
        }
        let n: usize = current.len();
        if n == 0 {
            return Err(SimulationError::EmptyCurrentSeries);
        }
        if n == 1 {
            return Err(SimulationError::TooFewSamples);
        }
        let dt: u64 = time[1] - time[0];
        if !check_uniform_spacing(time, dt) {
            return Err(SimulationError::NonUniformTimestep);
        }
        let ghost dti = dt as int;

        // Arithmetic-capacity guard: per-step boundary terms within the
        // integrators' flux bound, and room for the worst-case growth of
        // every node over `n` steps.
        let dx_e: u64 = self.electrolyte.thickness / (ELECTROLYTE_DISCRETISATION as u64);
        let dr_n: u64 = self.negative_electrode.particle.dr;
        let dr_p: u64 = self.positive_electrode.particle.dr;
        proof {
            assert(ELECTROLYTE_DISCRETISATION == 20);
            assert(20 <= self.electrolyte.thickness <= 20_000_000);
            vstd::arithmetic::div_mod::lemma_div_is_ordered(
                20,
                self.electrolyte.thickness as int,
                20,
            );
            vstd::arithmetic::div_mod::lemma_div_is_ordered(
                self.electrolyte.thickness as int,
                20_000_000,
                20,
            );
            assert(1 <= dx_e <= 1_000_000);
            assert(1 <= dr_n <= 1_000_000);
            assert(1 <= dr_p <= 1_000_000);
            assert(0 <= (dt as int) * (FLUX_SATURATION as int) <= 20_000_000_000_000_000_000 * (
            FLUX_SATURATION as int)) by (nonlinear_arith)
                requires
                    0 <= dt as int <= 20_000_000_000_000_000_000,
                    FLUX_SATURATION == 1_000_000_000_000,
            ;
        }
        let cap_e: i128 = floor_div((dt as i128) * (FLUX_SATURATION as i128), dx_e as i128) + 1;
        let cap_n: i128 = floor_div((dt as i128) * (FLUX_SATURATION as i128), dr_n as i128) + 1;
        let cap_p: i128 = floor_div((dt as i128) * (FLUX_SATURATION as i128), dr_p as i128) + 1;
        let caps_ok: bool = cap_e <= FLUX_STEP_LIMIT as i128 && cap_n <= FLUX_STEP_LIMIT as i128
            && cap_p <= FLUX_STEP_LIMIT as i128;
        if !(check_currents_in_range(current) && caps_ok) {
            return Err(SimulationError::OutOfRangeInput);
        }
        let mx: i128 = if cap_e >= cap_n && cap_e >= cap_p {
            cap_e
        } else if cap_n >= cap_p {
            cap_n
        } else {
            cap_p
        };
        let g: i128 = 2 * mx + 2;
        let ghost g_spec = spec_step_growth(m0, dti);
        proof {
            assert(g == g_spec);
            assert((n as int) * g_spec >= 0) by (nonlinear_arith)
                requires
                    n as int >= 0,
                    g_spec == g as int,
                    g as int >= 2,
            ;
        }
        proof {
            assert(0 <= (n as int) * (g as int) <= 40_000_000_000_000_000_000
                * 2_000_000_000_002) by (nonlinear_arith)
                requires
                    0 <= n as int <= 20_000_000_000_000_000_000,
                    2 <= g as int <= 2_000_000_000_002,
            ;
        }
        let nb: i128 = (n as i128) * g;
        if nb > CONC_LIMIT as i128 {
            proof {
                if spec_budget_ok(m0, dti, n as int) {
                    assert((CONC_LIMIT as int) - (n as int) * g_spec
                        <= m0.electrolyte.concentration@[0]
                        <= (CONC_LIMIT as int) - (n as int) * g_spec || -((CONC_LIMIT as int) - (
                    n as int) * g_spec) <= m0.electrolyte.concentration@[0]);
                }
            }
            return Err(SimulationError::OutOfRangeInput);
        }
        let bound: i64 = (CONC_LIMIT as i128 - nb) as i64;
        if !(check_field_within(&self.electrolyte.concentration, bound) && check_field_within(
            &self.negative_electrode.particle.concentration,
            bound,
        ) && check_field_within(&self.positive_electrode.particle.concentration, bound)) {
            return Err(SimulationError::OutOfRangeInput);
        }

        // Stability of the explicit scheme, once per physical domain.
        if !ftcs_stable(dt, dr_n, self.negative_electrode.particle.diffusion_coeff) {
            return Err(SimulationError::NumericalInstability(StabilityDomain::NegativeParticle));
        }
        if !ftcs_stable(dt, dr_p, self.positive_electrode.particle.diffusion_coeff) {
            return Err(SimulationError::NumericalInstability(StabilityDomain::PositiveParticle));
        }
        if !ftcs_stable(dt, dx_e, self.electrolyte.diffusion_coeff) {
            return Err(SimulationError::NumericalInstability(StabilityDomain::Electrolyte));
        }

        // Mesh ratios: numerator `alpha * dt`, denominator `dx^2 * 1000`
        // (the stability bound makes both fit and orders them).
        proof {
            lemma_mesh_fit(dx_e as int, self.electrolyte.diffusion_coeff as int, dti);
            lemma_mesh_fit(dr_n as int, self.negative_electrode.particle.diffusion_coeff as int, dti);
            lemma_mesh_fit(dr_p as int, self.positive_electrode.particle.diffusion_coeff as int, dti);
        }
        let rn_e: u64 = ((self.electrolyte.diffusion_coeff as u128) * (dt as u128)) as u64;
        let rd_e: u64 = dx_e * dx_e * 1000;
        let rn_n: u64 = ((self.negative_electrode.particle.diffusion_coeff as u128) * (
        dt as u128)) as u64;
        let rd_n: u64 = dr_n * dr_n * 1000;
        let rn_p: u64 = ((self.positive_electrode.particle.diffusion_coeff as u128) * (
        dt as u128)) as u64;
        let rd_p: u64 = dr_p * dr_p * 1000;

        let ghost cs = to_ints(current@);
        let mut out: Vec<i64> = Vec::new();
        let mut k: usize = 0;
        while k < n
            invariant
                k <= n,
                out@.len() == k,
                self.wf(),
                spec_same_params(*self, m0),
                to_ints(self.electrolyte.concentration@) == spec_states(m0, cs, dti, k as int).0,
                to_ints(self.negative_electrode.particle.concentration@) == spec_states(
                    m0,
                    cs,
                    dti,
                    k as int,
                ).1,
                to_ints(self.positive_electrode.particle.concentration@) == spec_states(
                    m0,
                    cs,
                    dti,
                    k as int,
                ).2,
                forall|j: int|
                    0 <= j < k ==> #[trigger] out@[j] == spec_voltage_at_step(m0, cs, dti, j),
                spec_fields_within(*self, (CONC_LIMIT as int) - (n - k) * g_spec),
                !m0.record_history ==> self.concentration == m0.concentration,
                m0.record_history ==> self.concentration@.len() == m0.concentration@.len() + k,
                m0.record_history ==> forall|j: int|
                    0 <= j < k ==> to_ints(
                        #[trigger] self.concentration@[m0.concentration@.len() + j]@,
                    ) == spec_states(m0, cs, dti, j + 1).0,
            decreases n - k,
        {
            let ik: i64 = current[k];
            proof {
                assert((n as int - k as int) * g_spec <= (n as int) * g_spec)
                    by (nonlinear_arith)
                    requires
                        0 <= n as int - k as int <= n as int,
                        0 <= g_spec,
                ;
            }
            let v: i64 = self.advance_one_step(
                dt,
                ik,
                dx_e,
                dr_n,
                dr_p,
                rn_e,
                rd_e,
                rn_n,
                rd_n,
                rn_p,
                rd_p,
                cap_e,
                cap_n,
                cap_p,
                Ghost(m0),
                Ghost(cs),
                Ghost(k as int),
                Ghost(n as int),
            );
            out.push(v);
            if self.record_history {
                let snap: Vec<i64> = copy_field(&self.electrolyte.concentration);
                self.concentration.push(snap);
            }
            k = k + 1;
        }
        Ok(out)
    }
}

impl SPMeModel {
    /// One coupled timestep: advances the electrolyte and both particle
    /// fields from their state after `k` steps to their state after
    /// `k + 1`, and assembles that step's cell potential.
    #[verifier::rlimit(100)]
    fn advance_one_step(
        &mut self,
        dt: u64,
        ik: i64,
        dx_e: u64,
        dr_n: u64,
        dr_p: u64,
        rn_e: u64,
        rd_e: u64,
        rn_n: u64,
        rd_n: u64,
        rn_p: u64,
        rd_p: u64,
        cap_e: i128,
        cap_n: i128,
        cap_p: i128,
        Ghost(m0): Ghost<SPMeModel>,
        Ghost(cs): Ghost<Seq<int>>,
        Ghost(k): Ghost<int>,
        Ghost(n): Ghost<int>,
    ) -> (v: i64)
        requires
            old(self).wf(),
            m0.wf(),
            spec_same_params(*old(self), m0),
            0 <= k < n,
            n == cs.len(),
            ik as int == cs[k],
            -CURRENT_LIMIT <= ik <= CURRENT_LIMIT,
            dx_e as int == spec_dx_e(m0),
            dr_n == m0.negative_electrode.particle.dr,
            dr_p == m0.positive_electrode.particle.dr,
            1 <= dx_e <= 1_000_000,
            rn_e as int == (m0.electrolyte.diffusion_coeff as int) * (dt as int),
            rd_e as int == (dx_e as int) * (dx_e as int) * 1000,
            rn_n as int == (m0.negative_electrode.particle.diffusion_coeff as int) * (dt as int),
            rd_n as int == (dr_n as int) * (dr_n as int) * 1000,
            rn_p as int == (m0.positive_electrode.particle.diffusion_coeff as int) * (dt as int),
            rd_p as int == (dr_p as int) * (dr_p as int) * 1000,
            0 < rd_e <= 1_000_000_000_000_000,
            0 < rd_n <= 1_000_000_000_000_000,
            0 < rd_p <= 1_000_000_000_000_000,
            2 * rn_e <= rd_e,
            2 * rn_n <= rd_n,
            2 * rn_p <= rd_p,
            cap_e as int == spec_flux_cap(dt as int, dx_e as int),
            cap_n as int == spec_flux_cap(dt as int, dr_n as int),
            cap_p as int == spec_flux_cap(dt as int, dr_p as int),
            cap_e <= FLUX_STEP_LIMIT as i128,
            cap_n <= FLUX_STEP_LIMIT as i128,
            cap_p <= FLUX_STEP_LIMIT as i128,
            2 * cap_e + 2 <= spec_step_growth(m0, dt as int),
            2 * cap_n + 2 <= spec_step_growth(m0, dt as int),
            2 * cap_p + 2 <= spec_step_growth(m0, dt as int),
            to_ints(old(self).electrolyte.concentration@) == spec_states(m0, cs, dt as int, k).0,
            to_ints(old(self).negative_electrode.particle.concentration@) == spec_states(
                m0,
                cs,
                dt as int,
                k,
            ).1,
            to_ints(old(self).positive_electrode.particle.concentration@) == spec_states(
                m0,
                cs,
                dt as int,
                k,
            ).2,
            spec_fields_within(*old(self), (CONC_LIMIT as int) - (n - k) * spec_step_growth(m0, dt as int)),
            0 <= (CONC_LIMIT as int) - (n - k) * spec_step_growth(m0, dt as int),
        ensures
            final(self).wf(),
            spec_same_params(*final(self), m0),
            final(self).concentration == old(self).concentration,
            final(self).record_history == old(self).record_history,
            to_ints(final(self).electrolyte.concentration@) == spec_states(m0, cs, dt as int, k + 1).0,
            to_ints(final(self).negative_electrode.particle.concentration@) == spec_states(
                m0,
                cs,
                dt as int,
                k + 1,
            ).1,
            to_ints(final(self).positive_electrode.particle.concentration@) == spec_states(
                m0,
                cs,
                dt as int,
                k + 1,
            ).2,
            spec_fields_within(
                *final(self),
                (CONC_LIMIT as int) - (n - (k + 1)) * spec_step_growth(m0, dt as int),
            ),
            v == spec_voltage_at_step(m0, cs, dt as int, k),
    {
        let ghost dti = dt as int;
        let ghost g_spec = spec_step_growth(m0, dti);
        let ghost b_k = (CONC_LIMIT as int) - (n - k) * g_spec;
        proof {
            assert((n - k) * g_spec - g_spec == (n - k - 1) * g_spec) by (nonlinear_arith);
            assert((n - k - 1) * g_spec >= 0) by (nonlinear_arith)
                requires
                    0 <= n - k - 1,
                    0 <= g_spec,
            ;
        }

        // Advance the electrolyte field.
        let fe: i64 = self.electrolyte_boundary_flux(ik);
        proof {
            lemma_step_flux_fit(dti, fe as int, dx_e as int, cap_e as int);
        }
        let se: i64 = floor_div((dt as i128) * (fe as i128), dx_e as i128) as i64;
        let mut ec: Vec<i64> = copy_field(&self.electrolyte.concentration);
        forward_time_centered_space_linear(&mut ec, rn_e, rd_e, se);
        proof {
            assert(to_ints(ec@) =~= spec_states(m0, cs, dti, k + 1).0);
            crate::math::lemma_linear_stepped_bound(
                spec_states(m0, cs, dti, k).0,
                rn_e as int,
                rd_e as int,
                se as int,
                b_k,
            );
        }
        self.electrolyte.concentration = ec;
        proof {
            assert forall|i: int| 0 <= i < self.electrolyte.concentration@.len() implies -(b_k + 2
                * (cap_e as int) + 2) <= #[trigger] self.electrolyte.concentration@[i] <= b_k + 2
                * (cap_e as int) + 2 by {
                assert(to_ints(self.electrolyte.concentration@)[i]
                    == self.electrolyte.concentration@[i]);
                assert(to_ints(self.electrolyte.concentration@)[i] == linear_stepped(
                    spec_states(m0, cs, dti, k).0,
                    rn_e as int,
                    rd_e as int,
                    se as int,
                )[i]);
            }
        }

        // Advance the negative particle (insertion during charge).
        let fnn: i64 = self.particle_surface_flux(ik, &self.negative_electrode);
        proof {
            lemma_step_flux_fit(dti, -(fnn as int), dr_n as int, cap_n as int);
            assert(dti * (-(fnn as int)) == -(dti * (fnn as int))) by (nonlinear_arith);
        }
        let sn: i64 = floor_div(-((dt as i128) * (fnn as i128)), dr_n as i128) as i64;
        let mut ncf: Vec<i64> = copy_field(&self.negative_electrode.particle.concentration);
        forward_time_centered_space_radial(&mut ncf, rn_n, rd_n, sn);
        proof {
            assert(to_ints(ncf@) =~= spec_states(m0, cs, dti, k + 1).1);
            crate::math::lemma_radial_stepped_bound(
                spec_states(m0, cs, dti, k).1,
                rn_n as int,
                rd_n as int,
                sn as int,
                b_k,
            );
        }
        self.negative_electrode.particle.concentration = ncf;
        proof {
            assert forall|i: int|
                0 <= i < self.negative_electrode.particle.concentration@.len() implies -(b_k + 2
                * (cap_n as int) + 2) <= #[trigger] self.negative_electrode.particle.concentration@[i]
                <= b_k + 2 * (cap_n as int) + 2 by {
                assert(to_ints(self.negative_electrode.particle.concentration@)[i]
                    == self.negative_electrode.particle.concentration@[i]);
                assert(to_ints(self.negative_electrode.particle.concentration@)[i]
                    == radial_stepped(
                    spec_states(m0, cs, dti, k).1,
                    rn_n as int,
                    rd_n as int,
                    sn as int,
                )[i]);
            }
        }

        // Advance the positive particle (extraction during charge).
        let fp: i64 = self.particle_surface_flux(ik, &self.positive_electrode);
        proof {
            lemma_step_flux_fit(dti, fp as int, dr_p as int, cap_p as int);
        }
        let sp: i64 = floor_div((dt as i128) * (fp as i128), dr_p as i128) as i64;
        let mut pcf: Vec<i64> = copy_field(&self.positive_electrode.particle.concentration);
        forward_time_centered_space_radial(&mut pcf, rn_p, rd_p, sp);
        proof {
            assert(to_ints(pcf@) =~= spec_states(m0, cs, dti, k + 1).2);
            crate::math::lemma_radial_stepped_bound(
                spec_states(m0, cs, dti, k).2,
                rn_p as int,
                rd_p as int,
                sp as int,
                b_k,
            );
        }
        self.positive_electrode.particle.concentration = pcf;
        proof {
            assert forall|i: int|
                0 <= i < self.positive_electrode.particle.concentration@.len() implies -(b_k + 2
                * (cap_p as int) + 2) <= #[trigger] self.positive_electrode.particle.concentration@[i]
                <= b_k + 2 * (cap_p as int) + 2 by {
                assert(to_ints(self.positive_electrode.particle.concentration@)[i]
                    == self.positive_electrode.particle.concentration@[i]);
                assert(to_ints(self.positive_electrode.particle.concentration@)[i]
                    == radial_stepped(
                    spec_states(m0, cs, dti, k).2,
                    rn_p as int,
                    rd_p as int,
                    sp as int,
                )[i]);
            }
        }

        // Assemble this timestep's cell potential.
        let v: i64 = self.cell_potential(ik);
        proof {
            assert(v == spec_voltage_at_step(m0, cs, dti, k));
        }
        v
    }
}


/// From the stability bound: the mesh numerator `alpha * dt` and the
/// denominator `dx^2 * 1000` both fit a `u64`, with `2 * rn <= rd`.
proof fn lemma_mesh_fit(dx: int, alpha: int, dt: int)
    requires
        1 <= dx <= 1_000_000,
        1 <= alpha,
        0 <= dt,
        spec_ftcs_stable(dt, dx, alpha),
    ensures
        dx * dx * 1000 == 1000 * dx * dx,
        1000 <= dx * dx * 1000 <= 1_000_000_000_000_000,
        0 <= alpha * dt,
        2 * (alpha * dt) <= dx * dx * 1000,
{
    assert(dx * dx * 1000 == 1000 * dx * dx && 1 <= dx * dx <= 1_000_000_000_000)
        by (nonlinear_arith)
        requires
            1 <= dx <= 1_000_000,
    ;
    assert(0 <= alpha * dt) by (nonlinear_arith)
        requires
            1 <= alpha,
            0 <= dt,
    ;
    assert(2 * alpha * dt == 2 * (alpha * dt)) by (nonlinear_arith);
}

/// A saturated flux through one flooring division stays within the
/// domain's precomputed cap.
proof fn lemma_step_flux_fit(dt: int, f: int, dx: int, cap: int)
    requires
        0 <= dt <= 20_000_000_000_000_000_000,
        1 <= dx,
        -(FLUX_SATURATION as int) <= f <= FLUX_SATURATION as int,
        cap == spec_flux_cap(dt, dx),
    ensures
        -cap <= fdiv(dt * f, dx) <= cap,
        i128::MIN < dt * f < i128::MAX,
{
    assert(-(dt * (FLUX_SATURATION as int)) <= dt * f <= dt * (FLUX_SATURATION as int))
        by (nonlinear_arith)
        requires
            0 <= dt,
            -(FLUX_SATURATION as int) <= f <= FLUX_SATURATION as int,
    ;
    assert(0 <= dt * (FLUX_SATURATION as int) <= 20_000_000_000_000_000_000 * (
    FLUX_SATURATION as int)) by (nonlinear_arith)
        requires
            0 <= dt <= 20_000_000_000_000_000_000,
            FLUX_SATURATION == 1_000_000_000_000,
    ;
    crate::numeric::lemma_fdiv_abs(dt * f, dt * (FLUX_SATURATION as int), dx);
}


/// All three concentration fields of `m` are spatially uniform.
pub open spec fn spec_fields_uniform(m: SPMeModel) -> bool {
    &&& forall|i: int|
        0 <= i < m.electrolyte.concentration@.len() ==> #[trigger] m.electrolyte.concentration@[i]
            == m.electrolyte.concentration@[0]
    &&& forall|i: int|
        0 <= i < m.negative_electrode.particle.concentration@.len()
            ==> #[trigger] m.negative_electrode.particle.concentration@[i]
            == m.negative_electrode.particle.concentration@[0]
    &&& forall|i: int|
        0 <= i < m.positive_electrode.particle.concentration@.len()
            ==> #[trigger] m.positive_electrode.particle.concentration@[i]
            == m.positive_electrode.particle.concentration@[0]
}

/// Driving a uniform model with zero current moves nothing: after any
/// number of steps of the simulation's own update, all three fields equal
/// their initial state.
pub proof fn lemma_zero_current_states_fixed(m: SPMeModel, currents: Seq<int>, dt: int, k: int)
    requires
        m.wf(),
        0 <= dt,
        spec_fields_uniform(m),
        forall|j: int| 0 <= j < currents.len() ==> #[trigger] currents[j] == 0,
        0 <= k <= currents.len(),
    ensures
        spec_states(m, currents, dt, k) == spec_states(m, currents, dt, 0),
    decreases k,
{
    if k > 0 {
        lemma_zero_current_states_fixed(m, currents, dt, k - 1);
        lemma_zero_current_flux_terms(m, dt);
        let st = spec_states(m, currents, dt, 0);
        assert(st.0 =~= to_ints(m.electrolyte.concentration@));
        assert forall|i: int| 0 <= i < st.0.len() implies #[trigger] st.0[i] == st.0[0] by {
            assert(m.electrolyte.concentration@[i] == m.electrolyte.concentration@[0]);
        }
        assert forall|i: int| 0 <= i < st.1.len() implies #[trigger] st.1[i] == st.1[0] by {
            assert(m.negative_electrode.particle.concentration@[i]
                == m.negative_electrode.particle.concentration@[0]);
        }
        assert forall|i: int| 0 <= i < st.2.len() implies #[trigger] st.2[i] == st.2[0] by {
            assert(m.positive_electrode.particle.concentration@[i]
                == m.positive_electrode.particle.concentration@[0]);
        }
        let dxe = spec_dx_e(m);
        let drn = m.negative_electrode.particle.dr as int;
        let drp = m.positive_electrode.particle.dr as int;
        lemma_mesh_positive(m, dt);
        crate::math::lemma_linear_uniform_fixed_point(
            st.0,
            (m.electrolyte.diffusion_coeff as int) * dt,
            dxe * dxe * 1000,
        );
        crate::math::lemma_radial_uniform_fixed_point(
            st.1,
            (m.negative_electrode.particle.diffusion_coeff as int) * dt,
            drn * drn * 1000,
        );
        crate::math::lemma_radial_uniform_fixed_point(
            st.2,
            (m.positive_electrode.particle.diffusion_coeff as int) * dt,
            drp * drp * 1000,
        );
    }
}

/// With zero applied current every per-step boundary term vanishes.
proof fn lemma_zero_current_flux_terms(m: SPMeModel, dt: int)
    requires
        m.wf(),
        0 <= dt,
    ensures
        spec_current_density(m.negative_electrode, 0) == 0,
        spec_current_density(m.positive_electrode, 0) == 0,
        spec_particle_surface_flux(m.negative_electrode, 0) == 0,
        spec_particle_surface_flux(m.positive_electrode, 0) == 0,
        spec_electrolyte_boundary_flux(m.negative_electrode, 0) == 0,
        spec_step_flux_e(m, dt, 0) == 0,
        spec_step_flux_n(m, dt, 0) == 0,
        spec_step_flux_p(m, dt, 0) == 0,
{
    lemma_zero_current_density(m.negative_electrode);
    lemma_zero_current_density(m.positive_electrode);
    lemma_mesh_positive(m, dt);
    lemma_zero_fdiv(spec_dx_e(m));
    lemma_zero_fdiv(m.negative_electrode.particle.dr as int);
    lemma_zero_fdiv(m.positive_electrode.particle.dr as int);
    lemma_zero_fdiv(FARADAY_MILLI as int);
    let denn = (FARADAY_MILLI as int) * spec_interfacial_area(m.negative_electrode)
        * m.negative_electrode.thickness;
    if denn != 0 {
        assert(0 * 1_000_000_000_000_000_000 == 0) by (nonlinear_arith);
        vstd::arithmetic::div_mod::lemma_div_of0(denn);
    }
    let denp = (FARADAY_MILLI as int) * spec_interfacial_area(m.positive_electrode)
        * m.positive_electrode.thickness;
    if denp != 0 {
        vstd::arithmetic::div_mod::lemma_div_of0(denp);
    }
    assert(dt * 0 == 0) by (nonlinear_arith);
    assert(-(dt * 0) == 0);
}

/// The current density of a zero current is zero.
proof fn lemma_zero_current_density(e: Electrode)
    requires
        e.wf(),
    ensures
        spec_current_density(e, 0) == 0,
{
    let area = (e.height as int) * (e.width as int);
    assert((e.height as int) * (e.width as int) >= 1) by (nonlinear_arith)
        requires
            e.height >= 1,
            e.width >= 1,
    ;
    assert(0 * 1_000_000_000_000_000 == 0) by (nonlinear_arith);
    lemma_zero_fdiv(area);
}

/// `floor(0 / d) == 0` for positive `d`.
proof fn lemma_zero_fdiv(d: int)
    requires
        1 <= d,
    ensures
        fdiv(0, d) == 0,
{
    assert(0 * d == 0) by (nonlinear_arith);
    crate::numeric::lemma_fdiv_bounds(0, d, 0, 0);
}

/// The mesh denominators of all three domains are positive and the
/// numerators nonnegative.
proof fn lemma_mesh_positive(m: SPMeModel, dt: int)
    requires
        m.wf(),
        0 <= dt,
    ensures
        1 <= spec_dx_e(m) <= 1_000_000,
        0 < spec_dx_e(m) * spec_dx_e(m) * 1000,
        0 < (m.negative_electrode.particle.dr as int) * (m.negative_electrode.particle.dr as int)
            * 1000,
        0 < (m.positive_electrode.particle.dr as int) * (m.positive_electrode.particle.dr as int)
            * 1000,
        0 <= (m.electrolyte.diffusion_coeff as int) * dt,
        0 <= (m.negative_electrode.particle.diffusion_coeff as int) * dt,
        0 <= (m.positive_electrode.particle.diffusion_coeff as int) * dt,
{
    vstd::arithmetic::div_mod::lemma_div_is_ordered(20, m.electrolyte.thickness as int, 20);
    vstd::arithmetic::div_mod::lemma_div_is_ordered(
        m.electrolyte.thickness as int,
        20_000_000,
        20,
    );
    let dxe = spec_dx_e(m);
    assert(0 < dxe * dxe * 1000) by (nonlinear_arith)
        requires
            1 <= dxe,
    ;
    assert(0 < (m.negative_electrode.particle.dr as int) * (
    m.negative_electrode.particle.dr as int) * 1000) by (nonlinear_arith)
        requires
            1 <= m.negative_electrode.particle.dr,
    ;
    assert(0 < (m.positive_electrode.particle.dr as int) * (
    m.positive_electrode.particle.dr as int) * 1000) by (nonlinear_arith)
        requires
            1 <= m.positive_electrode.particle.dr,
    ;
    assert(0 <= (m.electrolyte.diffusion_coeff as int) * dt && 0 <= (
    m.negative_electrode.particle.diffusion_coeff as int) * dt && 0 <= (
    m.positive_electrode.particle.diffusion_coeff as int) * dt) by (nonlinear_arith)
        requires
            0 <= dt,
            1 <= m.electrolyte.diffusion_coeff,
            1 <= m.negative_electrode.particle.diffusion_coeff,
            1 <= m.positive_electrode.particle.diffusion_coeff,
    ;
}

/// The no-current round trip: simulating a uniform model with an all-zero
/// current series produces, at every step, the constant voltage
/// `OCV_positive(initial fraction) - OCV_negative(initial fraction)` —
/// every overpotential term vanishes at zero current, and no field ever
/// develops a gradient.
pub proof fn lemma_no_current_round_trip(m: SPMeModel, currents: Seq<int>, dt: int, k: int)
    requires
        m.wf(),
        0 <= dt,
        spec_fields_uniform(m),
        forall|j: int| 0 <= j < currents.len() ==> #[trigger] currents[j] == 0,
        0 <= k < currents.len(),
    ensures
        spec_voltage_at_step(m, currents, dt, k) == spec_open_circuit_voltage(
            m.positive_electrode.ocv,
            spec_surface_fraction(
                m.positive_electrode.particle.concentration@[PARTICLE_DISCRETISATION - 1] as int,
                m.positive_electrode.particle.concentration_max as int,
            ),
        ) - spec_open_circuit_voltage(
            m.negative_electrode.ocv,
            spec_surface_fraction(
                m.negative_electrode.particle.concentration@[PARTICLE_DISCRETISATION - 1] as int,
                m.negative_electrode.particle.concentration_max as int,
            ),
        ),
{
    lemma_zero_current_states_fixed(m, currents, dt, k + 1);
    lemma_zero_current_flux_terms(m, dt);
    let st = spec_states(m, currents, dt, k + 1);
    // Both reaction overpotentials vanish: the Butler-Volmer argument is
    // zero at zero current density, and arcsinh(0) == 0.
    lemma_butler_volmer_at_rest(
        m.negative_electrode.particle.concentration_max as int,
        st.1[PARTICLE_DISCRETISATION - 1],
        spec_interfacial_area(m.negative_electrode),
        m.negative_electrode.thickness as int,
    );
    lemma_butler_volmer_at_rest(
        m.positive_electrode.particle.concentration_max as int,
        st.2[PARTICLE_DISCRETISATION - 1],
        spec_interfacial_area(m.positive_electrode),
        m.positive_electrode.thickness as int,
    );
    // The electrolyte never develops a gradient, so the concentration
    // overpotential is zero.
    assert(st.0[ELECTROLYTE_DISCRETISATION - 1] == st.0[0]) by {
        assert(m.electrolyte.concentration@[ELECTROLYTE_DISCRETISATION - 1]
            == m.electrolyte.concentration@[0]);
    }
    assert((st.0[ELECTROLYTE_DISCRETISATION - 1] - st.0[0]) * (ETA_CONC_COEFF as int) == 0)
        by (nonlinear_arith)
        requires
            st.0[ELECTROLYTE_DISCRETISATION - 1] == st.0[0],
    ;
    assert(spec_eta_conc(st.0) == 0) by {
        lemma_zero_fdiv(1_000_000_000_000);
    }
    assert(st.1[PARTICLE_DISCRETISATION - 1]
        == m.negative_electrode.particle.concentration@[PARTICLE_DISCRETISATION - 1]) by {
        assert(to_ints(m.negative_electrode.particle.concentration@)[PARTICLE_DISCRETISATION - 1]
            == m.negative_electrode.particle.concentration@[PARTICLE_DISCRETISATION - 1]);
    }
    assert(st.2[PARTICLE_DISCRETISATION - 1]
        == m.positive_electrode.particle.concentration@[PARTICLE_DISCRETISATION - 1]) by {
        assert(to_ints(m.positive_electrode.particle.concentration@)[PARTICLE_DISCRETISATION - 1]
            == m.positive_electrode.particle.concentration@[PARTICLE_DISCRETISATION - 1]);
    }
}

/// The Butler-Volmer overpotential vanishes at zero current density.
proof fn lemma_butler_volmer_at_rest(cmax: int, raw_surface: int, area: int, thickness: int)
    ensures
        spec_butler_volmer_parts(cmax, raw_surface, area, thickness, 0) == 0,
{
    crate::approx::lemma_arcsinh_zero();
    let cs = if raw_surface < 0 {
        0
    } else if raw_surface > cmax {
        cmax
    } else {
        raw_surface
    };
    let x = spec_surface_fraction(cs, cmax);
    let i0 = fdiv(
        (SQRT_KINETIC_CONC as int) * spec_isqrt(cs) * spec_isqrt((SCALE - x) * SCALE),
        1_000_000_000_000,
    );
    let den = 2 * i0 * area * thickness;
    if den != 0 {
        assert(0 * 1_000_000_000_000_000 == 0) by (nonlinear_arith);
        vstd::arithmetic::div_mod::lemma_div_of0(den);
    }
    assert(0 * (BV_PREFACTOR as int) == 0) by (nonlinear_arith);
    lemma_zero_fdiv(1_000_000_000_000);
}


impl SPMeModel {
    /// The observable output of the current state for one timestep: the
    /// assembled cell potential at the given applied current, and a
    /// snapshot of the electrolyte concentration field.
    pub fn step_output(&self, current: i64) -> (out: crate::SimulationStepOutput)
        requires
            self.wf(),
            -CURRENT_LIMIT <= current <= CURRENT_LIMIT,
        ensures
            out.cell_potential == spec_cell_potential_at(
                *self,
                to_ints(self.electrolyte.concentration@),
                to_ints(self.negative_electrode.particle.concentration@),
                to_ints(self.positive_electrode.particle.concentration@),
                current as int,
            ),
            out.electrolyte_concentration@ == self.electrolyte.concentration@,
    {
        crate::SimulationStepOutput {
            cell_potential: self.cell_potential(current),
            electrolyte_concentration: copy_field(&self.electrolyte.concentration),
        }
    }
}

impl crate::Simulate for SPMeModel {
    open spec fn ready(&self) -> bool {
        self.wf()
    }

    fn simulate(&mut self, time: &Vec<u64>, current: &Vec<i64>) -> (r: Result<
        Vec<i64>,
        SimulationError,
    >) {
        SPMeModel::simulate(self, time, current)
    }
}

} // verus!
