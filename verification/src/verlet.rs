//! The leapfrog (velocity-Verlet) integrator.
//!
//! One step is exactly five sub-operations, in a fixed order: half-kick the
//! velocities with the previous accelerations, drift the positions, re-image
//! every position into the canonical box, recompute the accelerations and
//! sums at the new positions, and half-kick the velocities again with the
//! new accelerations.  The spec functions here state that step exactly, as
//! a function of the state's component bit patterns.

use vstd::prelude::*;
use crate::boundaries::BoundaryConditions;
use crate::d_vector::{DVector, all_wf, views_of, vadd, vscale};
use crate::potential::PotentialEnergy;
use crate::scalar::{TWO_BITS, div_bits, r_div};

verus! {

/// The default time step, `5e-3`, by bit pattern.
pub const DELTA_T_DEFAULT: u32 = 0x3ba3_d70a;

/// The timekeeping capability a driver offers the step loop: marking the
/// start of a step, the step length, and the completion hook that receives
/// the freshly evaluated potential-energy and virial sums.
pub trait MolecularTimer<const D: usize> {
    fn step_begin(&mut self);

    fn delta_t(&self) -> u32;

    fn step_complete(&mut self, u_sum: u32, virial_sum: u32);
}

/// Each row of `y` plus the matching row of `x` scaled by `k`
/// (the leapfrog kick and drift both have this shape).
pub open spec fn rows_axpy(y: Seq<Seq<u32>>, x: Seq<Seq<u32>>, k: u32) -> Seq<Seq<u32>> {
    Seq::new(y.len(), |i: int| vadd(y[i], vscale(x[i], k)))
}

/// Every row re-imaged by the boundary scheme.
pub open spec fn wrap_rows<const D: usize, B: BoundaryConditions<D>>(
    b: B,
    rows: Seq<Seq<u32>>,
) -> Seq<Seq<u32>> {
    Seq::new(rows.len(), |i: int| b.spec_wrap(rows[i]))
}

/// The component views of a full simulation state: positions, velocities
/// and accelerations, one row per particle.
pub ghost struct SimState {
    pub pos: Seq<Seq<u32>>,
    pub vel: Seq<Seq<u32>>,
    pub acc: Seq<Seq<u32>>,
}

impl SimState {
    /// Equal row counts, every row of dimension `d`.
    pub open spec fn wf(self, d: nat) -> bool {
        &&& self.vel.len() == self.pos.len()
        &&& self.acc.len() == self.pos.len()
        &&& forall|i: int| 0 <= i < self.pos.len() ==> (#[trigger] self.pos[i]).len() == d
        &&& forall|i: int| 0 <= i < self.vel.len() ==> (#[trigger] self.vel[i]).len() == d
        &&& forall|i: int| 0 <= i < self.acc.len() ==> (#[trigger] self.acc[i]).len() == d
    }

    /// The number of particles.
    pub open spec fn n_mol(self) -> nat {
        self.pos.len()
    }
}

/// The state views of three populations of vectors.
pub open spec fn state_of<const D: usize>(
    pos: Seq<DVector<D>>,
    vel: Seq<DVector<D>>,
    acc: Seq<DVector<D>>,
) -> SimState {
    SimState { pos: views_of(pos), vel: views_of(vel), acc: views_of(acc) }
}

/// The re-imaged positions after the half-kick and the drift: where the
/// force evaluation of the step takes place.
pub open spec fn step_wrapped_positions<const D: usize, B: BoundaryConditions<D>>(
    b: B,
    delta_t: u32,
    s: SimState,
) -> Seq<Seq<u32>> {
    let half = div_bits(delta_t, TWO_BITS);
    let vel1 = rows_axpy(s.vel, s.acc, half);
    wrap_rows(b, rows_axpy(s.pos, vel1, delta_t))
}

/// One full leapfrog step of the state: the five sub-operations of
/// [`single_step`], composed.
pub open spec fn step_state<const D: usize, B: BoundaryConditions<D>, P: PotentialEnergy<D, B>>(
    b: B,
    p: P,
    delta_t: u32,
    s: SimState,
) -> SimState {
    let half = div_bits(delta_t, TWO_BITS);
    let vel1 = rows_axpy(s.vel, s.acc, half);
    let pos2 = step_wrapped_positions(b, delta_t, s);
    let acc2 = p.spec_acc(b, pos2);
    SimState { pos: pos2, vel: rows_axpy(vel1, acc2, half), acc: acc2 }
}

/// The potential evaluator after one full leapfrog step: its sums
/// overwritten at the step's re-imaged positions.
pub open spec fn step_potential<const D: usize, B: BoundaryConditions<D>, P: PotentialEnergy<D, B>>(
    b: B,
    p: P,
    delta_t: u32,
    s: SimState,
) -> P {
    p.spec_step(b, step_wrapped_positions(b, delta_t, s))
}

/// Adds `delta_t / 2` times each acceleration to the matching velocity.
fn calc_vel_for_half_step<const D: usize>(
    delta_t: u32,
    vel: &mut Vec<DVector<D>>,
    acc: &Vec<DVector<D>>,
)
    requires
        old(vel)@.len() == acc@.len(),
        all_wf(old(vel)@),
        all_wf(acc@),
    ensures
        final(vel)@.len() == old(vel)@.len(),
        all_wf(final(vel)@),
        views_of(final(vel)@) == rows_axpy(
            views_of(old(vel)@),
            views_of(acc@),
            div_bits(delta_t, TWO_BITS),
        ),
{
    let ghost vel0 = vel@;
    let half_delta_t = r_div(delta_t, TWO_BITS);
    let n = vel.len();
    for i in 0..n
        invariant
            vel@.len() == n,
            acc@.len() == n,
            all_wf(vel@),
            all_wf(acc@),
            half_delta_t == div_bits(delta_t, TWO_BITS),
            forall|j: int| 0 <= j < i
                ==> (#[trigger] vel@[j])@ == vadd(vel0[j]@, vscale(acc@[j]@, half_delta_t)),
            forall|j: int| i <= j < n ==> vel@[j] == vel0[j],
    {
        let scaled = acc[i].scaled_by(half_delta_t);
        let updated = vel[i].add(&scaled);
        vel.set(i, updated);
    }
    assert(views_of(vel@) =~= rows_axpy(views_of(vel0), views_of(acc@), div_bits(delta_t, TWO_BITS)));
}

/// First half of the step: half-kick the velocities with the previous
/// accelerations, then drift each position by `delta_t` times its freshly
/// half-kicked velocity.
fn leapfrog_begin<const D: usize>(
    delta_t: u32,
    pos: &mut Vec<DVector<D>>,
    vel: &mut Vec<DVector<D>>,
    acc: &Vec<DVector<D>>,
)
    requires
        old(pos)@.len() == old(vel)@.len(),
        old(vel)@.len() == acc@.len(),
        all_wf(old(pos)@),
        all_wf(old(vel)@),
        all_wf(acc@),
    ensures
        final(pos)@.len() == old(pos)@.len(),
        final(vel)@.len() == old(vel)@.len(),
        all_wf(final(pos)@),
        all_wf(final(vel)@),
        views_of(final(vel)@) == rows_axpy(
            views_of(old(vel)@),
            views_of(acc@),
            div_bits(delta_t, TWO_BITS),
        ),
        views_of(final(pos)@) == rows_axpy(views_of(old(pos)@), views_of(final(vel)@), delta_t),
{
    calc_vel_for_half_step(delta_t, vel, acc);
    let ghost pos0 = pos@;
    let n = pos.len();
    for i in 0..n
        invariant
            pos@.len() == n,
            vel@.len() == n,
            all_wf(pos@),
            all_wf(vel@),
            forall|j: int| 0 <= j < i
                ==> (#[trigger] pos@[j])@ == vadd(pos0[j]@, vscale(vel@[j]@, delta_t)),
            forall|j: int| i <= j < n ==> pos@[j] == pos0[j],
    {
        let scaled = vel[i].scaled_by(delta_t);
        let updated = pos[i].add(&scaled);
        pos.set(i, updated);
    }
    assert(views_of(pos@) =~= rows_axpy(views_of(pos0), views_of(vel@), delta_t));
}

/// Second half of the step: half-kick the velocities with the new
/// accelerations.
fn leapfrog_end<const D: usize>(delta_t: u32, vel: &mut Vec<DVector<D>>, acc: &Vec<DVector<D>>)
    requires
        old(vel)@.len() == acc@.len(),
        all_wf(old(vel)@),
        all_wf(acc@),
    ensures
        final(vel)@.len() == old(vel)@.len(),
        all_wf(final(vel)@),
        views_of(final(vel)@) == rows_axpy(
            views_of(old(vel)@),
            views_of(acc@),
            div_bits(delta_t, TWO_BITS),
        ),
{
    calc_vel_for_half_step(delta_t, vel, acc);
}

/// Re-images every position into the canonical box.
fn apply_boundary_conditions<const D: usize, B: BoundaryConditions<D>>(
    boundaries: &B,
    pos: &mut Vec<DVector<D>>,
)
    requires
        boundaries.spec_wf(),
        all_wf(old(pos)@),
    ensures
        final(pos)@.len() == old(pos)@.len(),
        all_wf(final(pos)@),
        views_of(final(pos)@) == wrap_rows(*boundaries, views_of(old(pos)@)),
{
    let ghost pos0 = pos@;
    let n = pos.len();
    for i in 0..n
        invariant
            pos@.len() == n,
            all_wf(pos@),
            boundaries.spec_wf(),
            forall|j: int| 0 <= j < i
                ==> (#[trigger] pos@[j])@ == boundaries.spec_wrap(pos0[j]@),
            forall|j: int| i <= j < n ==> pos@[j] == pos0[j],
    {
        let mut position = pos.remove(i);
        boundaries.wrap(&mut position);
        pos.insert(i, position);
    }
    assert(views_of(pos@) =~= wrap_rows(*boundaries, views_of(pos0)));
}

/// One full time step: half-kick, drift, re-image, force evaluation,
/// half-kick, in exactly that order.
pub fn single_step<const D: usize, B: BoundaryConditions<D>, P: PotentialEnergy<D, B>>(
    delta_t: u32,
    pos: &mut Vec<DVector<D>>,
    vel: &mut Vec<DVector<D>>,
    acc: &mut Vec<DVector<D>>,
    boundaries: &B,
    potential: &mut P,
)
    requires
        boundaries.spec_wf(),
        old(potential).spec_wf(),
        old(potential).forces_req(old(pos)@.len() as nat),
        old(pos)@.len() == old(vel)@.len(),
        old(pos)@.len() == old(acc)@.len(),
        all_wf(old(pos)@),
        all_wf(old(vel)@),
        all_wf(old(acc)@),
    ensures
        final(pos)@.len() == old(pos)@.len(),
        final(vel)@.len() == old(vel)@.len(),
        final(acc)@.len() == old(acc)@.len(),
        all_wf(final(pos)@),
        all_wf(final(vel)@),
        all_wf(final(acc)@),
        final(potential).spec_wf(),
        forall|n: nat| #[trigger] final(potential).forces_req(n) == old(potential).forces_req(n),
        state_of(final(pos)@, final(vel)@, final(acc)@) == step_state(
            *boundaries,
            *old(potential),
            delta_t,
            state_of(old(pos)@, old(vel)@, old(acc)@),
        ),
        *final(potential) == step_potential(
            *boundaries,
            *old(potential),
            delta_t,
            state_of(old(pos)@, old(vel)@, old(acc)@),
        ),
{
    let ghost s0 = state_of(old(pos)@, old(vel)@, old(acc)@);
    leapfrog_begin(delta_t, pos, vel, acc);
    apply_boundary_conditions(boundaries, pos);
    assert(views_of(pos@) == step_wrapped_positions(*boundaries, delta_t, s0));
    potential.compute_forces(pos, acc, boundaries);
    proof {
        old(potential).lemma_spec_step(*boundaries, views_of(pos@));
    }
    leapfrog_end(delta_t, vel, acc);
    assert(state_of(pos@, vel@, acc@) == step_state(*boundaries, *old(potential), delta_t, s0));
}

} // verus!
