//! The simulation driver: time accounting, end-to-end scenarios, momentum.

use mol_job::boundaries::Region;
use mol_job::d_vector::DVector;
use mol_job::initial_state;
use mol_job::job::{thermal_speed_squared, JobSetup};
use mol_job::lennard_jones::LennardJones;
use mol_job::potential::{NoInteraction, PotentialEnergy};
use mol_job::prop::TrivialProps;
use mol_job::verlet::single_step;

fn b(x: f32) -> u32 {
    x.to_bits()
}

fn v2(x: f32, y: f32) -> DVector<2> {
    DVector::from_components(vec![b(x), b(y)])
}

fn v3(x: f32, y: f32, z: f32) -> DVector<3> {
    DVector::from_components(vec![b(x), b(y), b(z)])
}

fn comps<const D: usize>(v: &DVector<D>) -> Vec<f32> {
    v.components().iter().map(|c| f32::from_bits(*c)).collect()
}

/// A deterministic unit-vector source for thermal velocities.
fn unit_directions(n: usize) -> Vec<DVector<3>> {
    let mut state: u64 = 0x2545_f491_4f6c_dd1d;
    let mut uniform = || {
        state = state.wrapping_mul(6364136223846793005).wrapping_add(1442695040888963407);
        ((state >> 33) as f32) / (2147483648.0)
    };
    let mut result = Vec::with_capacity(n);
    for _ in 0..n {
        let z = 2.0 * uniform() - 1.0;
        let theta = 2.0 * std::f32::consts::PI * uniform();
        let r = (1.0 - z * z).max(0.0).sqrt();
        result.push(v3(r * theta.cos(), r * theta.sin(), z));
    }
    result
}

#[test]
fn lib_it_works() {
    let mut j = JobSetup::<3, Region<3>, LennardJones, TrivialProps<3>>::build()
        .delta_t(b(1e-3))
        .potential(NoInteraction::default())
        .job();
    j.run(100);
    assert_eq!(b(0.1), j.time_now());
}

#[test]
fn run_reports_surplus_steps() {
    let mut j = JobSetup::<3, Region<3>, LennardJones, TrivialProps<3>>::build()
        .potential(NoInteraction::default())
        .job();
    assert_eq!(0, j.run(5));
    assert_eq!(5, j.step_count());
    assert_eq!(1, j.run(0));
    assert_eq!(6, j.step_count());
}

#[test]
fn single_particle_stays_put() {
    let mut j = JobSetup::<3, Region<3>, LennardJones, TrivialProps<3>>::build()
        .potential(NoInteraction::default())
        .init_pos(vec![v3(1., 2., 3.)])
        .job();
    j.run(7);
    assert_eq!(b(0.005 * 7.0), j.time_now());
    assert_eq!(vec![1., 2., 3.], comps(&j.get_pos()[0]));
    assert_eq!(vec![0., 0., 0.], comps(&j.get_vel()[0]));
}

#[test]
fn two_particles_stay_antisymmetric() {
    let mut j = JobSetup::<2, Region<2>, LennardJones, TrivialProps<2>>::build()
        .delta_t(b(0.01))
        .boundaries(Region::new(vec![b(10.), b(10.)]))
        .potential(LennardJones::new(b(5.)))
        .init_pos(vec![v2(-1., -1.), v2(1., 1.)])
        .random_vel(b(1.), &vec![v2(1., 1.), v2(-1., -1.)])
        .job();
    assert_eq!(vec![1., 1.], comps(&j.get_vel()[0]));
    assert_eq!(vec![-1., -1.], comps(&j.get_vel()[1]));
    for k in 1..=100usize {
        j.run(1);
        assert_eq!(b(0.01 * k as f32), j.time_now());
        for axis in 0..2 {
            let pos = j.get_pos();
            let vel = j.get_vel();
            let acc = j.get_acc();
            let left = f32::from_bits(pos[0].components()[axis]);
            let right = f32::from_bits(pos[1].components()[axis]);
            assert_eq!(left, -right, "position, step {k}, axis {axis}");
            let left = f32::from_bits(vel[0].components()[axis]);
            let right = f32::from_bits(vel[1].components()[axis]);
            assert_eq!(left, -right, "velocity, step {k}, axis {axis}");
            let left = f32::from_bits(acc[0].components()[axis]);
            let right = f32::from_bits(acc[1].components()[axis]);
            assert_eq!(left, -right, "acceleration, step {k}, axis {axis}");
        }
    }
}

#[test]
fn momentum_is_zero_after_random_vel() {
    let n_mol = 1000usize;
    let size = ((n_mol as f32) / 0.8).powf(1.0 / 3.0);
    let (region, pos) = initial_state::cubic_lattice::<3>(n_mol, b(size));
    assert_eq!(n_mol, pos.len());
    let vel_mag = f32::from_bits(thermal_speed_squared::<3>(b(1.), n_mol)).sqrt();
    let dirs = unit_directions(n_mol);
    let j = JobSetup::<3, Region<3>, LennardJones, TrivialProps<3>>::build()
        .boundaries(region)
        .potential(LennardJones::new(b(2.5)))
        .init_pos(pos)
        .random_vel(b(vel_mag), &dirs)
        .job();
    let total = j.vel_sum();
    for axis in 0..3 {
        let component = f32::from_bits(total.components()[axis]);
        assert!(component.abs() < 1e-3, "axis {axis}: {component}");
    }
}

#[test]
fn momentum_is_conserved_by_steps() {
    let n_mol = 64usize;
    let size = ((n_mol as f32) / 0.8).powf(1.0 / 3.0);
    let (region, pos) = initial_state::cubic_lattice::<3>(n_mol, b(size));
    assert_eq!(n_mol, pos.len());
    let vel_mag = f32::from_bits(thermal_speed_squared::<3>(b(1.), n_mol)).sqrt();
    let dirs = unit_directions(n_mol);
    let mut j = JobSetup::<3, Region<3>, LennardJones, TrivialProps<3>>::build()
        .boundaries(region)
        .potential(LennardJones::new(b(2.5)))
        .init_pos(pos)
        .random_vel(b(vel_mag), &dirs)
        .job();
    j.run(3);
    let total = j.vel_sum();
    for axis in 0..3 {
        let component = f32::from_bits(total.components()[axis]);
        assert!(component.abs() < 1e-3, "axis {axis}: {component}");
    }
}

#[test]
fn lennard_jones_sums_match_the_formula() {
    let mut lj = LennardJones::new(b(5.));
    let region: Region<2> = Region::new(vec![b(10.), b(10.)]);
    let pos = vec![v2(-1., -1.), v2(1., 1.)];
    let mut acc = vec![v2(0., 0.), v2(0., 0.)];
    lj.compute_forces(&pos, &mut acc, &region);

    let dr = (-2.0f32, -2.0f32);
    let rr = (0.0f32 + dr.0 * dr.0) + dr.1 * dr.1;
    let rri = 1.0f32 / rr;
    let rri3 = rri * rri * rri;
    let force_value = 48.0f32 * rri3 * (rri3 - 0.5) * rri;
    let force = (dr.0 * force_value, dr.1 * force_value);
    let expected_u = 4.0f32 * rri3 * (rri3 - 1.0) + 1.0;
    let expected_v = force_value * rr;

    assert_eq!(expected_u.to_bits(), PotentialEnergy::<2, Region<2>>::u_sum(&lj));
    assert_eq!(expected_v.to_bits(), PotentialEnergy::<2, Region<2>>::virial_sum(&lj));
    assert_eq!(vec![0.0 + force.0, 0.0 + force.1], comps(&acc[0]));
    assert_eq!(vec![0.0 - force.0, 0.0 - force.1], comps(&acc[1]));
}

#[test]
fn lennard_jones_truncates_at_the_cutoff() {
    let mut lj = LennardJones::new(b(2.5));
    let region: Region<2> = Region::new(vec![b(10.), b(10.)]);
    let pos = vec![v2(-1., -1.), v2(1., 1.)];
    let mut acc = vec![v2(9., 9.), v2(9., 9.)];
    lj.compute_forces(&pos, &mut acc, &region);
    assert_eq!(0.0f32.to_bits(), PotentialEnergy::<2, Region<2>>::u_sum(&lj));
    assert_eq!(0.0f32.to_bits(), PotentialEnergy::<2, Region<2>>::virial_sum(&lj));
    assert_eq!(vec![0., 0.], comps(&acc[0]));
    assert_eq!(vec![0., 0.], comps(&acc[1]));
}

#[test]
fn no_interaction_zeroes_the_accelerations() {
    let mut quiet = NoInteraction::default();
    let region: Region<2> = Region::new(vec![b(10.), b(10.)]);
    let pos = vec![v2(1., 2.), v2(3., 4.)];
    let mut acc = vec![v2(5., 6.), v2(7., 8.)];
    quiet.compute_forces(&pos, &mut acc, &region);
    assert_eq!(vec![0., 0.], comps(&acc[0]));
    assert_eq!(vec![0., 0.], comps(&acc[1]));
    assert_eq!(0.0f32.to_bits(), PotentialEnergy::<2, Region<2>>::u_sum(&quiet));
}

#[test]
fn run_agrees_with_single_step() {
    let mut j = JobSetup::<2, Region<2>, LennardJones, TrivialProps<2>>::build()
        .delta_t(b(0.01))
        .boundaries(Region::new(vec![b(10.), b(10.)]))
        .potential(LennardJones::new(b(5.)))
        .init_pos(vec![v2(-1., -1.), v2(1., 1.)])
        .job();
    j.run(1);

    let region: Region<2> = Region::new(vec![b(10.), b(10.)]);
    let mut lj = LennardJones::new(b(5.));
    let mut pos = vec![v2(-1., -1.), v2(1., 1.)];
    let mut vel = vec![v2(0., 0.), v2(0., 0.)];
    let mut acc = vec![v2(0., 0.), v2(0., 0.)];
    single_step(b(0.01), &mut pos, &mut vel, &mut acc, &region, &mut lj);

    for i in 0..2 {
        assert_eq!(pos[i].components(), j.get_pos()[i].components());
        assert_eq!(vel[i].components(), j.get_vel()[i].components());
        assert_eq!(acc[i].components(), j.get_acc()[i].components());
    }
}

#[test]
fn thermal_speed_squared_formula() {
    let expected = (1.0f32 * 3.0) * (1.0f32 - 1.0f32 / 1000.0);
    assert_eq!(expected.to_bits(), thermal_speed_squared::<3>(b(1.), 1000));
}

#[test]
fn vel_sum_adds_in_order() {
    let j = JobSetup::<2, Region<2>, LennardJones, TrivialProps<2>>::build()
        .potential(NoInteraction::default())
        .init_pos(vec![v2(0., 0.), v2(0., 0.)])
        .random_vel(b(1.), &vec![v2(1., 2.), v2(3., 4.)])
        .job();
    let total = j.vel_sum();
    assert_eq!(vec![0., 0.], comps(&total));
    let vel = j.get_vel();
    assert_eq!(vec![1. - 2., 2. - 3.], comps(&vel[0]));
    assert_eq!(vec![3. - 2., 4. - 3.], comps(&vel[1]));
}
