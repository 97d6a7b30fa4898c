use pxd::input::CurrentFunction;
use pxd::model::SPMeModel;
use pxd::model::SimulationError;
use pxd::model::StabilityDomain;
use pxd::Simulate;

fn default_cycle_series(half_time_ms: u64, dt_ms: u64, current_ma: i64) -> (Vec<u64>, Vec<i64>) {
    let n_steps: usize = ((2 * half_time_ms + dt_ms - 1) / dt_ms) as usize;
    let mut t: Vec<u64> = Vec::with_capacity(n_steps);
    let mut i: Vec<i64> = Vec::with_capacity(n_steps);
    for step in 0..n_steps {
        let time_val: u64 = step as u64 * dt_ms;
        t.push(time_val);
        i.push(if time_val < half_time_ms { current_ma } else { -current_ma });
    }
    (t, i)
}

// A full-cycle run: 3.2 A for an hour each way at a 0.1 s
// timestep. That timestep is far beyond the electrolyte's stability bound
// (about 1.06 ms for the default parameters), so the run must be refused
// as numerically unstable for the electrolyte domain, before any field is
// touched.
#[test]
fn simulate_default_cycle() {
    let (t, i) = default_cycle_series(3_600_000, 100, 3200);
    assert_eq!(t.len(), 72_000);
    let mut model = SPMeModel::default();
    let r = model.simulate(&t, &i);
    assert_eq!(
        r.err(),
        Some(SimulationError::NumericalInstability(StabilityDomain::Electrolyte))
    );
    // Nothing was mutated by the rejected run.
    assert_eq!(model.electrolyte.concentration, vec![1_000_000_000i64; 20]);
    assert_eq!(
        model.negative_electrode.particle.concentration,
        vec![1_000_000_000i64; 20]
    );
    assert_eq!(
        model.positive_electrode.particle.concentration,
        vec![49_000_000_000i64; 20]
    );
}

// The no-current round trip: an all-zero current series yields a constant
// voltage series equal to OCV_positive(initial fraction) minus
// OCV_negative(initial fraction), and leaves every field untouched.
#[test]
fn no_current_round_trip() {
    let mut model = SPMeModel::default();
    let t: Vec<u64> = vec![0, 1, 2, 3];
    let i: Vec<i64> = vec![0, 0, 0, 0];
    let v = model.simulate(&t, &i).unwrap();
    assert_eq!(v, vec![3_169_283i64; 4]);
    // The expected constant is exactly the OCV difference at the initial
    // surface fractions.
    let xp = pxd::ocv::surface_fraction(49_000_000_000, 50_060_000_000);
    let xn = pxd::ocv::surface_fraction(1_000_000_000, 34_684_000_000);
    assert_eq!(xp, 978_825);
    assert_eq!(xn, 28_831);
    let expected = pxd::ocv::ocv_nmc811_at(xp) - pxd::ocv::ocv_graphite_si_at(xn);
    assert_eq!(expected, 3_169_283);
    // Fields are exactly their initial uniform values.
    assert_eq!(model.electrolyte.concentration, vec![1_000_000_000i64; 20]);
    assert_eq!(
        model.negative_electrode.particle.concentration,
        vec![1_000_000_000i64; 20]
    );
    assert_eq!(
        model.positive_electrode.particle.concentration,
        vec![49_000_000_000i64; 20]
    );
}

// A short full cycle at a stable timestep: 1 A charge for 3 s then 1 A
// discharge for 3 s at 1 ms. The voltage rises through the charge phase,
// then the trend reverses right at the current-reversal index.
#[test]
fn short_cycle_trend_reversal() {
    let (t, i) = default_cycle_series(3_000, 1, 1000);
    assert_eq!(t.len(), 6_000);
    let mut model = SPMeModel::default();
    let v = model.simulate(&t, &i).unwrap();
    assert_eq!(v.len(), 6_000);
    assert_eq!(v[0], 3_208_528);
    assert_eq!(v[1000], 3_560_462);
    assert_eq!(v[2000], 3_562_410);
    assert_eq!(v[2999], 3_563_984);
    assert_eq!(v[3000], 3_486_094);
    assert_eq!(v[5999], 2_778_062);
    // Trend through the charge phase, the jump at the reversal, and the
    // trend through the discharge phase.
    assert!(v[0] < v[1000] && v[1000] < v[2000] && v[2000] < v[2999]);
    assert!(v[3000] < v[2999]);
    assert!(v[3500] > v[4500] && v[4500] > v[5999]);
}

// Recording the diagnostic history appends one electrolyte snapshot per
// timestep; with zero current every snapshot is the uniform initial field.
#[test]
fn history_recording() {
    let mut model = SPMeModel::default();
    model.record_history = true;
    assert_eq!(model.concentration.len(), 1);
    let t: Vec<u64> = vec![0, 1, 2];
    let i: Vec<i64> = vec![0, 0, 0];
    model.simulate(&t, &i).unwrap();
    assert_eq!(model.concentration.len(), 4);
    for snap in &model.concentration {
        assert_eq!(snap, &vec![1_000_000_000i64; 20]);
    }
}

// Each validation failure is detected before any field mutation.
#[test]
fn validation_mismatched_lengths() {
    let mut model = SPMeModel::default();
    let r = model.simulate(&vec![0, 1], &vec![0]);
    assert_eq!(r.err(), Some(SimulationError::MismatchedLengths));
    assert_eq!(model.electrolyte.concentration, vec![1_000_000_000i64; 20]);
}

#[test]
fn validation_non_increasing_time() {
    let mut model = SPMeModel::default();
    let r = model.simulate(&vec![5, 4, 6], &vec![0, 0, 0]);
    assert_eq!(r.err(), Some(SimulationError::NonIncreasingTime));
    let r2 = model.simulate(&vec![0, 0], &vec![0, 0]);
    assert_eq!(r2.err(), Some(SimulationError::NonIncreasingTime));
    assert_eq!(model.electrolyte.concentration, vec![1_000_000_000i64; 20]);
}

#[test]
fn validation_empty_series() {
    let mut model = SPMeModel::default();
    let r = model.simulate(&vec![], &vec![]);
    assert_eq!(r.err(), Some(SimulationError::EmptyCurrentSeries));
    assert_eq!(
        model.negative_electrode.particle.concentration,
        vec![1_000_000_000i64; 20]
    );
}

#[test]
fn validation_single_sample() {
    let mut model = SPMeModel::default();
    let r = model.simulate(&vec![0], &vec![100]);
    assert_eq!(r.err(), Some(SimulationError::TooFewSamples));
}

#[test]
fn validation_non_uniform_timestep() {
    let mut model = SPMeModel::default();
    let r = model.simulate(&vec![0, 1, 3], &vec![0, 0, 0]);
    assert_eq!(r.err(), Some(SimulationError::NonUniformTimestep));
    assert_eq!(
        model.positive_electrode.particle.concentration,
        vec![49_000_000_000i64; 20]
    );
}

#[test]
fn validation_current_out_of_range() {
    let mut model = SPMeModel::default();
    let r = model.simulate(&vec![0, 1], &vec![1_500_000_000, 0]);
    assert_eq!(r.err(), Some(SimulationError::OutOfRangeInput));
}

// Each domain's stability failure is reported by name, in the order the
// checks run: negative particle, positive particle, electrolyte.
#[test]
fn instability_domains() {
    let mut slow_neg = SPMeModel::default();
    slow_neg.negative_electrode.particle.diffusion_coeff = 1_000_000_000_000_000_000;
    let r = slow_neg.simulate(&vec![0, 1], &vec![0, 0]);
    assert_eq!(
        r.err(),
        Some(SimulationError::NumericalInstability(StabilityDomain::NegativeParticle))
    );

    let mut slow_pos = SPMeModel::default();
    slow_pos.positive_electrode.particle.diffusion_coeff = 1_000_000_000_000_000_000;
    let r2 = slow_pos.simulate(&vec![0, 1], &vec![0, 0]);
    assert_eq!(
        r2.err(),
        Some(SimulationError::NumericalInstability(StabilityDomain::PositiveParticle))
    );

    let mut coarse = SPMeModel::default();
    let r3 = coarse.simulate(&vec![0, 2], &vec![0, 0]);
    assert_eq!(
        r3.err(),
        Some(SimulationError::NumericalInstability(StabilityDomain::Electrolyte))
    );
}

// The waveform generator: a full cycle holds the charge current until the
// half-cycle time, then flips its sign, on a uniform grid.
#[test]
fn cycle_from_current_shape() {
    let c = CurrentFunction::cycle_from_current(1000, 500, 100);
    assert_eq!(c.dt, 100);
    assert_eq!(c.t, vec![0, 100, 200, 300, 400, 500, 600, 700, 800, 900]);
    assert_eq!(
        c.i,
        vec![1000, 1000, 1000, 1000, 1000, -1000, -1000, -1000, -1000, -1000]
    );
    assert_eq!(c.current(0), 1000);
    assert_eq!(c.current(250), 1000);
    assert_eq!(c.current(500), -1000);
    assert_eq!(c.current(950), -1000);
}

#[test]
fn default_current_function() {
    let c = CurrentFunction::default();
    assert_eq!(c.dt, 100);
    assert_eq!(c.t.len(), 360_000);
    assert_eq!(c.i[0], 640);
    assert_eq!(c.i[359_999], -640);
    assert_eq!(c.t[359_999], 35_999_900);
}

// Exact fixed-point values of the numeric helpers and the two
// open-circuit-voltage curves.
#[test]
fn numeric_helper_values() {
    assert_eq!(pxd::approx::exp_neg(0), 1_000_000);
    assert_eq!(pxd::approx::exp_neg(1_000_000), 367_879);
    assert_eq!(pxd::approx::tanh_fixed(0), 0);
    assert_eq!(pxd::approx::tanh_fixed(1_000_000), 761_596);
    assert_eq!(pxd::approx::tanh_fixed(-1_000_000), -761_596);
    assert_eq!(pxd::approx::arcsinh(0), 0);
    assert_eq!(pxd::approx::arcsinh(240_000), 237_750);
    assert_eq!(pxd::approx::arcsinh(-240_000), -237_750);
}

// The particle-level entry points agree with the curves at the particles'
// own surface fractions, and the per-step output snapshot matches the
// model's electrolyte field.
#[test]
fn particle_level_ocv_and_step_output() {
    let neg = pxd::model::Particle::new(6_100, 50_000, 34_684_000_000, 1_000_000_000);
    assert_eq!(pxd::ocv::open_circuit_voltage_graphite_si(&neg), 364_616);
    let pos = pxd::model::Particle::new(3_800, 50_000, 50_060_000_000, 49_000_000_000);
    assert_eq!(pxd::ocv::open_circuit_voltage_nmc811(&pos), 3_533_899);

    let model = SPMeModel::default();
    let out = model.step_output(0);
    assert_eq!(out.cell_potential, 3_169_283);
    assert_eq!(out.electrolyte_concentration, vec![1_000_000_000i64; 20]);
}

// The `Simulate` trait entry point runs the same simulation.
#[test]
fn simulate_through_trait() {
    let mut model = SPMeModel::default();
    let t: Vec<u64> = vec![0, 1];
    let i: Vec<i64> = vec![0, 0];
    let v = <SPMeModel as Simulate>::simulate(&mut model, &t, &i).unwrap();
    assert_eq!(v, vec![3_169_283i64; 2]);
}

#[test]
fn ocv_curve_values() {
    assert_eq!(pxd::ocv::ocv_graphite_si_at(0), 1_027_753);
    assert_eq!(pxd::ocv::ocv_graphite_si_at(28_831), 364_616);
    assert_eq!(pxd::ocv::ocv_graphite_si_at(500_000), 80_601);
    assert_eq!(pxd::ocv::ocv_graphite_si_at(1_000_000), 76_283);
    assert_eq!(pxd::ocv::ocv_nmc811_at(0), 4_523_006);
    assert_eq!(pxd::ocv::ocv_nmc811_at(500_000), 3_945_201);
    assert_eq!(pxd::ocv::ocv_nmc811_at(978_825), 3_533_899);
    assert_eq!(pxd::ocv::ocv_nmc811_at(1_000_000), 3_518_221);
    // The enum dispatch agrees with the concrete curves.
    let g = pxd::ocv::OcvCurve::GraphiteSilicon;
    let n = pxd::ocv::OcvCurve::Nmc811;
    assert_eq!(g.open_circuit_voltage(500_000), 80_601);
    assert_eq!(n.open_circuit_voltage(500_000), 3_945_201);
}
