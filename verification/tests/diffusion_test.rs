use pxd::math::forward_time_centered_space_linear;
use pxd::math::forward_time_centered_space_radial;
use pxd::math::ftcs_stable;

// A 1 mm planar domain with a 1 micrometre grid (1000 nodes), stepped for
// 20 minutes at 0.1 s with D = 1e-12 m^2/s: the initial peak at the left
// edge must decay monotonically and no other node may fall below its
// initial value. Units: nm for space, ms for time, nm^2/s for D, and
// micro(mol/m^3) for concentrations.
#[test]
fn test_fcts() {
    let nx: usize = 1000;
    let initial_concentration: i64 = 1_000_000_000; // 1000 mol/m^3
    let mut concentration: Vec<i64> = vec![initial_concentration; nx];
    concentration[0] = 1_300_000_000; // 1300 mol/m^3

    let dx: u64 = 1_000; // 1e-6 m
    let dt: u64 = 100; // 0.1 s
    let diffusion_coeff: u64 = 1_000_000; // 1e-12 m^2/s
    let nt: usize = 12_000; // 20 minutes

    assert!(
        ftcs_stable(dt, dx, diffusion_coeff),
        "The parameters used makes the FTCS method unstable."
    );

    // The caller supplies the mesh ratio r = D*dt/dx^2 as a fraction.
    let rn: u64 = diffusion_coeff * dt;
    let rd: u64 = dx * dx * 1000;

    let mut x0: i64 = concentration[0];
    let x_rest_init: Vec<i64> = concentration[1..].to_vec();

    for _ in 0..nt {
        forward_time_centered_space_linear(&mut concentration, rn, rd, 0);

        assert!(
            x0 >= concentration[0],
            "The concentration peak is not monotonicaly decreasing."
        );
        x0 = concentration[0];

        let all_less_or_equal = x_rest_init
            .iter()
            .zip(&concentration[1..])
            .all(|(a, b)| a <= b);
        assert!(
            all_less_or_equal,
            "The concentration of some x-point is below the initial value."
        );
    }
    // The peak really spread out.
    assert!(concentration[0] < 1_300_000_000);
    assert!(concentration[1] > 1_000_000_000);
}

// A uniform field with zero boundary flux is an exact fixed point of the
// planar step, however often it is applied.
#[test]
fn zero_flux_uniform_fixed_point() {
    let mut field: Vec<i64> = vec![1_000_000_000; 20];
    for _ in 0..50 {
        forward_time_centered_space_linear(&mut field, 450, 1000, 0);
    }
    assert_eq!(field, vec![1_000_000_000; 20]);

    let mut radial: Vec<i64> = vec![49_000_000_000; 20];
    for _ in 0..50 {
        forward_time_centered_space_radial(&mut radial, 450, 1000, 0);
    }
    assert_eq!(radial, vec![49_000_000_000; 20]);
}

// Sign convention of the spherical surface flux: positive flux (material
// leaving) strictly lowers the surface node in one step, negative flux
// strictly raises it, and the centre node is untouched either way.
#[test]
fn surface_flux_sign() {
    let mut outgoing: Vec<i64> = vec![1_000_000_000; 20];
    forward_time_centered_space_radial(&mut outgoing, 0, 1000, 5);
    assert_eq!(outgoing[0], 1_000_000_000);
    assert_eq!(outgoing[19], 999_999_994);
    assert!(outgoing[19] < 1_000_000_000);

    let mut incoming: Vec<i64> = vec![1_000_000_000; 20];
    forward_time_centered_space_radial(&mut incoming, 0, 1000, -5);
    assert_eq!(incoming[0], 1_000_000_000);
    assert_eq!(incoming[19], 1_000_000_005);
    assert!(incoming[19] > 1_000_000_000);

    let mut resting: Vec<i64> = vec![1_000_000_000; 20];
    forward_time_centered_space_radial(&mut resting, 0, 1000, 0);
    assert_eq!(resting[19], 1_000_000_000);
}

// The stability predicate is inclusive at the classical bound
// dt = dx^2 / (2*D) and monotone on either side of it. With dx = 1000 nm
// and D = 1e6 nm^2/s the bound is exactly 500 ms.
#[test]
fn stability_boundary() {
    assert!(ftcs_stable(500, 1_000, 1_000_000));
    assert!(!ftcs_stable(501, 1_000, 1_000_000));
    assert!(ftcs_stable(499, 1_000, 1_000_000));
    assert!(ftcs_stable(1, 1_000, 1_000_000));
    assert!(!ftcs_stable(100_000, 1_000, 1_000_000));
}

// The three default domains of the cell model at the timesteps the other
// tests rely on: everything is stable at 1 ms; the electrolyte is the
// first domain to fail as the timestep grows.
#[test]
fn stability_default_domains() {
    assert!(ftcs_stable(1, 305, 50_000)); // negative particle
    assert!(ftcs_stable(1, 190, 50_000)); // positive particle
    assert!(ftcs_stable(1, 600, 170_000_000)); // electrolyte
    assert!(!ftcs_stable(2, 600, 170_000_000));
    assert!(!ftcs_stable(100, 600, 170_000_000));
    assert!(ftcs_stable(100, 305, 50_000));
    assert!(ftcs_stable(100, 190, 50_000));
}
