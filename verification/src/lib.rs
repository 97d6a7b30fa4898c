//! A Single Particle Model with electrolyte (SPMe) battery-cell simulator,
//! computed entirely in scaled integer (fixed-point) arithmetic so that the
//! numerical core can be verified.
//!
//! Unit conventions, used throughout:
//! - microscale lengths (particle radius, grid steps, electrode thickness): nanometres
//! - sheet dimensions (electrode height, width): micrometres
//! - time: milliseconds
//! - diffusion coefficients: nm^2 per second
//! - concentrations: micro(mol/m^3), called "concentration units" below
//! - currents: milliamperes
//! - voltages: microvolts
use vstd::prelude::*;

pub mod approx;
pub mod input;
pub mod math;
pub mod model;
pub mod numeric;
pub mod ocv;

verus! {

/// Number of radial grid nodes in each particle concentration field.
pub const PARTICLE_DISCRETISATION: usize = 20;

/// Number of grid nodes in the electrolyte concentration field.
pub const ELECTROLYTE_DISCRETISATION: usize = 20;

/// One timestep's worth of observable simulation output: the assembled cell
/// potential (microvolts) and a snapshot of the electrolyte concentration
/// field (concentration units).
pub struct SimulationStepOutput {
    pub cell_potential: i64,
    pub electrolyte_concentration: Vec<i64>,
}

/// Anything that can consume a parallel time/current series and produce
/// the cell voltage series.
pub trait Simulate: Sized {
    /// What the simulator's state must satisfy before a run.
    spec fn ready(&self) -> bool;

    /// Runs the full series: `time` in milliseconds, `current` in
    /// milliamperes, one microvolt sample per input index on success; a
    /// rejected run leaves the simulator untouched.
    fn simulate(&mut self, time: &Vec<u64>, current: &Vec<i64>) -> (r: Result<
        Vec<i64>,
        crate::model::SimulationError,
    >)
        requires
            old(self).ready(),
        ensures
            r matches Ok(v) ==> v@.len() == current@.len(),
            r is Err ==> *final(self) == *old(self),
    ;
}

} // verus!
