//! The simulation driver.
//!
//! A [`Job`] owns one simulation state — positions, velocities and
//! accelerations, one entry per particle — together with its pluggable
//! boundary scheme, potential evaluator and statistics accumulator, and
//! advances it step by step.  `run(steps)` is specified exactly: the state
//! and the evaluator afterwards equal the `steps`-fold iteration of the
//! leapfrog step of [`crate::verlet`].
//!
//! [`JobSetup`] is the configuration facade: a `Job` with defaulted fields,
//! adjusted by one builder call per field.

use vstd::prelude::*;
use crate::boundaries::{BoundaryConditions, Region};
use crate::d_vector::{DVector, all_wf, views_of, vadd, vscale, zero_vec};
use crate::lennard_jones::{LennardJones, R_CUT_DEFAULT};
use crate::potential::PotentialEnergy;
use crate::prop::{Props, TrivialProps};
use crate::scalar::{ZERO_BITS, ONE_BITS, NEG_ONE_BITS, mul_bits, div_bits, sub_bits, real_of_usize,
    r_mul, r_div, r_sub, r_of_usize};
use crate::verlet::{SimState, state_of, step_potential, step_state, single_step, DELTA_T_DEFAULT};

verus! {

/// The default per-axis extent of the driver's region, `50.0`, by bit
/// pattern.
pub const REGION_DEFAULT_BITS: u32 = 0x4248_0000;

/// The state and the potential evaluator after `n` leapfrog steps.
pub open spec fn run_state<const D: usize, B: BoundaryConditions<D>, P: PotentialEnergy<D, B>>(
    b: B,
    p: P,
    delta_t: u32,
    s: SimState,
    n: nat,
) -> (SimState, P)
    decreases n,
{
    if n == 0 {
        (s, p)
    } else {
        run_state(
            b,
            step_potential(b, p, delta_t, s),
            delta_t,
            step_state(b, p, delta_t, s),
            (n - 1) as nat,
        )
    }
}

/// The binary32 sum of the first `n` rows, accumulated in order onto the
/// zero vector.
pub open spec fn vel_sum_prefix<const D: usize>(vels: Seq<Seq<u32>>, n: int) -> Seq<u32>
    decreases n,
{
    if n <= 0 {
        zero_vec(D as nat)
    } else {
        vadd(vel_sum_prefix::<D>(vels, n - 1), vels[n - 1])
    }
}

/// The binary32 sum of all rows, accumulated in order onto the zero vector.
pub open spec fn vel_sum_bits<const D: usize>(vels: Seq<Seq<u32>>) -> Seq<u32> {
    vel_sum_prefix::<D>(vels, vels.len() as int)
}

/// The thermal velocity assignment: each direction scaled by `vel_mag`,
/// then every velocity shifted by `-1/n_mol` times their sum, so that the
/// total momentum is re-centered on zero.
pub open spec fn thermal_velocities<const D: usize>(
    dirs: Seq<Seq<u32>>,
    vel_mag: u32,
    n_mol: usize,
) -> Seq<Seq<u32>> {
    let scaled = Seq::new(dirs.len(), |i: int| vscale(dirs[i], vel_mag));
    let sum = vel_sum_bits::<D>(scaled);
    let shift = vscale(sum, div_bits(NEG_ONE_BITS, real_of_usize(n_mol)));
    Seq::new(dirs.len(), |i: int| vadd(scaled[i], shift))
}

/// The square of the thermal speed scale, `T · D · (1 − 1/n_mol)` in
/// binary32: the speed handed to `random_vel` is its square root, the one
/// operation left to the caller.
pub fn thermal_speed_squared<const D: usize>(temperature: u32, n_mol: usize) -> (r: u32)
    ensures
        r == mul_bits(
            mul_bits(temperature, real_of_usize(D)),
            sub_bits(ONE_BITS, div_bits(ONE_BITS, real_of_usize(n_mol))),
        ),
{
    r_mul(
        r_mul(temperature, r_of_usize(D)),
        r_sub(ONE_BITS, r_div(ONE_BITS, r_of_usize(n_mol))),
    )
}

/// The simulation driver: one state plus its strategy objects.
pub struct Job<const D: usize, B: BoundaryConditions<D>, P: PotentialEnergy<D, B>, S: Props<D>> {
    pos: Vec<DVector<D>>,
    vel: Vec<DVector<D>>,
    acc: Vec<DVector<D>>,
    boundaries: B,
    potential: P,
    props: S,
    step_count: usize,
    delta_t: u32,
    more_cycles: bool,
}

impl<const D: usize, B: BoundaryConditions<D>, P: PotentialEnergy<D, B>, S: Props<D>> Job<
    D,
    B,
    P,
    S,
> {
    /// The component views of the state.
    pub closed spec fn sim(self) -> SimState {
        state_of(self.pos@, self.vel@, self.acc@)
    }

    /// The boundary scheme.
    pub closed spec fn spec_boundaries(self) -> B {
        self.boundaries
    }

    /// The potential evaluator.
    pub closed spec fn spec_potential(self) -> P {
        self.potential
    }

    /// The statistics accumulator.
    pub closed spec fn spec_props(self) -> S {
        self.props
    }

    /// The number of completed steps.
    pub closed spec fn spec_step_count(self) -> usize {
        self.step_count
    }

    /// The time step, by bit pattern.
    pub closed spec fn spec_delta_t(self) -> u32 {
        self.delta_t
    }

    /// Well-formedness: the three arrays have equal lengths and `D`
    /// components per entry, and the strategy objects are well formed.
    pub open spec fn wf(self) -> bool {
        &&& self.sim().wf(D as nat)
        &&& self.spec_boundaries().spec_wf()
        &&& self.spec_potential().spec_wf()
    }

    /// The positions, one per particle.
    pub fn get_pos(&self) -> (r: &Vec<DVector<D>>)
        ensures
            views_of(r@) == self.sim().pos,
    {
        &self.pos
    }

    /// The velocities, one per particle.
    pub fn get_vel(&self) -> (r: &Vec<DVector<D>>)
        ensures
            views_of(r@) == self.sim().vel,
    {
        &self.vel
    }

    /// The accelerations, one per particle.
    pub fn get_acc(&self) -> (r: &Vec<DVector<D>>)
        ensures
            views_of(r@) == self.sim().acc,
    {
        &self.acc
    }

    /// The time step, by bit pattern.
    pub fn delta_t(&self) -> (r: u32)
        ensures
            r == self.spec_delta_t(),
    {
        self.delta_t
    }

    /// The number of completed steps.
    pub fn step_count(&self) -> (r: usize)
        ensures
            r == self.spec_step_count(),
    {
        self.step_count
    }

    /// The simulated time: the time step times the number of completed
    /// steps, in binary32.
    pub fn time_now(&self) -> (r: u32)
        ensures
            r == mul_bits(self.spec_delta_t(), real_of_usize(self.spec_step_count())),
    {
        r_mul(self.delta_t, r_of_usize(self.step_count))
    }

    /// The binary32 sum of all velocities, accumulated in index order.
    pub fn vel_sum(&self) -> (r: DVector<D>)
        requires
            self.wf(),
        ensures
            r.wf(),
            r@ == vel_sum_bits::<D>(self.sim().vel),
    {
        let mut result = DVector::zero();
        let n = self.vel.len();
        for i in 0..n
            invariant
                self.wf(),
                n == self.vel@.len(),
                result.wf(),
                result@ == vel_sum_prefix::<D>(views_of(self.vel@), i as int),
        {
            proof {
                assert(views_of(self.vel@)[i as int] == self.vel@[i as int]@);
                assert(self.vel@[i as int].wf());
            }
            result.add_assign(&self.vel[i]);
        }
        result
    }

    /// Marks the start of a step.
    fn step_begin(&mut self)
        requires
            old(self).step_count < usize::MAX,
        ensures
            final(self).step_count == old(self).step_count + 1,
            final(self).pos == old(self).pos,
            final(self).vel == old(self).vel,
            final(self).acc == old(self).acc,
            final(self).boundaries == old(self).boundaries,
            final(self).potential == old(self).potential,
            final(self).props == old(self).props,
            final(self).delta_t == old(self).delta_t,
            final(self).more_cycles == old(self).more_cycles,
    {
        self.step_count = self.step_count + 1;
    }

    /// Hands the step's results to the statistics accumulator: evaluate,
    /// accumulate, and — when the averaging period is complete — average,
    /// summarize and reset, in that order.
    fn step_complete(&mut self)
        ensures
            final(self).pos == old(self).pos,
            final(self).vel == old(self).vel,
            final(self).acc == old(self).acc,
            final(self).boundaries == old(self).boundaries,
            final(self).potential == old(self).potential,
            final(self).step_count == old(self).step_count,
            final(self).delta_t == old(self).delta_t,
            final(self).more_cycles == old(self).more_cycles,
    {
        let u = self.potential.u_sum();
        let v = self.potential.virial_sum();
        self.props.eval_props(u, v, &self.pos, &self.vel);
        self.props.accum_props();
        if self.props.need_avg(self.step_count) {
            self.props.avg_props();
            self.props.summarize();
            self.props.reset();
        }
    }

    /// Performs `steps` leapfrog steps back to back (at least one, even
    /// when `steps` is zero), and returns how many steps beyond the
    /// requested budget were taken.
    pub fn run(&mut self, steps: usize) -> (r: usize)
        requires
            old(self).wf(),
            old(self).spec_potential().forces_req(old(self).sim().n_mol()),
            old(self).spec_step_count() + steps + 1 <= usize::MAX,
        ensures
            final(self).wf(),
            final(self).spec_boundaries() == old(self).spec_boundaries(),
            final(self).spec_delta_t() == old(self).spec_delta_t(),
            final(self).spec_step_count() == old(self).spec_step_count() + (
            if steps == 0 {
                1int
            } else {
                steps as int
            }),
            r == (if steps == 0 {
                1int
            } else {
                0int
            }),
            ({
                let (s, p) = run_state(
                    old(self).spec_boundaries(),
                    old(self).spec_potential(),
                    old(self).spec_delta_t(),
                    old(self).sim(),
                    if steps == 0 {
                        1nat
                    } else {
                        steps as nat
                    },
                );
                final(self).sim() == s && final(self).spec_potential() == p
            }),
    {
        let ghost b0 = self.boundaries;
        let ghost p0 = self.potential;
        let ghost s0 = self.sim();
        let ghost dt = self.delta_t;
        let ghost c0 = self.step_count;
        let ghost n_eff: nat = if steps == 0 {
            1nat
        } else {
            steps as nat
        };
        let ghost target = run_state(b0, p0, dt, s0, n_eff);

        self.more_cycles = true;
        let step_limit = self.step_count + steps;
        while self.more_cycles
            invariant
                self.wf(),
                self.potential.forces_req(self.pos@.len() as nat),
                self.boundaries == b0,
                self.delta_t == dt,
                step_limit == c0 + steps,
                c0 + steps + 1 <= usize::MAX,
                n_eff == (if steps == 0 {
                    1nat
                } else {
                    steps as nat
                }),
                c0 <= self.step_count <= c0 + n_eff,
                self.more_cycles ==> (self.step_count == c0 || self.step_count < step_limit),
                !self.more_cycles ==> self.step_count == c0 + n_eff,
                run_state(
                    b0,
                    self.potential,
                    dt,
                    self.sim(),
                    (c0 + n_eff - self.step_count) as nat,
                ) == target,
            decreases c0 + n_eff - self.step_count + (if self.more_cycles {
                1int
            } else {
                0int
            }),
        {
            let ghost p_before = self.potential;
            let ghost s_before = self.sim();
            let ghost remaining: nat = (c0 + n_eff - self.step_count) as nat;
            self.step_begin();
            proof {
                crate::d_vector::lemma_all_wf_views::<D>(self.pos@);
                crate::d_vector::lemma_all_wf_views::<D>(self.vel@);
                crate::d_vector::lemma_all_wf_views::<D>(self.acc@);
            }
            single_step(
                self.delta_t,
                &mut self.pos,
                &mut self.vel,
                &mut self.acc,
                &self.boundaries,
                &mut self.potential,
            );
            proof {
                crate::d_vector::lemma_all_wf_views::<D>(self.pos@);
                crate::d_vector::lemma_all_wf_views::<D>(self.vel@);
                crate::d_vector::lemma_all_wf_views::<D>(self.acc@);
                assert(remaining >= 1);
                assert(self.sim() == step_state(b0, p_before, dt, s_before));
                assert(self.potential == step_potential(b0, p_before, dt, s_before));
                assert(run_state(b0, p_before, dt, s_before, remaining) == run_state(
                    b0,
                    self.potential,
                    dt,
                    self.sim(),
                    (remaining - 1) as nat,
                ));
            }
            self.step_complete();
            if self.step_count >= step_limit {
                self.more_cycles = false;
            }
        }
        self.step_count - step_limit
    }
}

impl<const D: usize> Default for Job<D, Region<D>, LennardJones, TrivialProps<D>> {
    /// An empty job: no particles, a `50.0`-sided region, the default
    /// Lennard-Jones evaluator, the trivial accumulator, the default time
    /// step, and no completed steps.
    fn default() -> (r: Self)
        ensures
            r.wf(),
            r.sim().n_mol() == 0,
            r.sim().vel.len() == 0,
            r.sim().acc.len() == 0,
            r.spec_step_count() == 0,
            r.spec_delta_t() == DELTA_T_DEFAULT,
            r.spec_boundaries()@ == Seq::new(D as nat, |i: int| REGION_DEFAULT_BITS),
            r.spec_potential().spec_r_cut() == R_CUT_DEFAULT,
            r.spec_potential().spec_u_sum() == ZERO_BITS,
            r.spec_potential().spec_v_sum() == ZERO_BITS,
    {
        let mut size: Vec<u32> = Vec::new();
        for i in 0..D
            invariant
                size@.len() == i,
                forall|j: int| 0 <= j < i ==> size@[j] == REGION_DEFAULT_BITS,
        {
            size.push(REGION_DEFAULT_BITS);
        }
        assert(size@ =~= Seq::new(D as nat, |i: int| REGION_DEFAULT_BITS));
        Job {
            pos: Vec::new(),
            vel: Vec::new(),
            acc: Vec::new(),
            boundaries: Region::new(size),
            potential: LennardJones::new(R_CUT_DEFAULT),
            props: TrivialProps,
            step_count: 0,
            delta_t: DELTA_T_DEFAULT,
            more_cycles: true,
        }
    }
}

/// The configuration facade: a [`Job`] under assembly, one builder call
/// per adjusted field.
pub struct JobSetup<const D: usize, B: BoundaryConditions<D>, P: PotentialEnergy<D, B>, S: Props<
    D,
>>(Job<D, B, P, S>);

impl<const D: usize> JobSetup<D, Region<D>, LennardJones, TrivialProps<D>> {
    /// Starts from the default job.
    pub fn build() -> (r: Self)
        ensures
            r.spec_job().wf(),
            r.spec_job().sim().n_mol() == 0,
            r.spec_job().sim().vel.len() == 0,
            r.spec_job().sim().acc.len() == 0,
            r.spec_job().spec_step_count() == 0,
            r.spec_job().spec_delta_t() == DELTA_T_DEFAULT,
            r.spec_job().spec_boundaries()@ == Seq::new(D as nat, |i: int| REGION_DEFAULT_BITS),
            r.spec_job().spec_potential().spec_r_cut() == R_CUT_DEFAULT,
            r.spec_job().spec_potential().spec_u_sum() == ZERO_BITS,
            r.spec_job().spec_potential().spec_v_sum() == ZERO_BITS,
    {
        JobSetup(Job::default())
    }
}

impl<const D: usize, B: BoundaryConditions<D>, P: PotentialEnergy<D, B>, S: Props<D>> JobSetup<
    D,
    B,
    P,
    S,
> {
    /// The job under assembly.
    pub closed spec fn spec_job(self) -> Job<D, B, P, S> {
        self.0
    }

    /// Sets the time step.
    pub fn delta_t(self, dt: u32) -> (r: Self)
        ensures
            r.spec_job().spec_delta_t() == dt,
            r.spec_job().sim() == self.spec_job().sim(),
            r.spec_job().spec_boundaries() == self.spec_job().spec_boundaries(),
            r.spec_job().spec_potential() == self.spec_job().spec_potential(),
            r.spec_job().spec_props() == self.spec_job().spec_props(),
            r.spec_job().spec_step_count() == self.spec_job().spec_step_count(),
    {
        let mut job = self.0;
        job.delta_t = dt;
        JobSetup(job)
    }

    /// Installs a potential evaluator.
    pub fn potential<P2: PotentialEnergy<D, B>>(self, potential: P2) -> (r: JobSetup<D, B, P2, S>)
        ensures
            r.spec_job().spec_potential() == potential,
            r.spec_job().sim() == self.spec_job().sim(),
            r.spec_job().spec_boundaries() == self.spec_job().spec_boundaries(),
            r.spec_job().spec_props() == self.spec_job().spec_props(),
            r.spec_job().spec_step_count() == self.spec_job().spec_step_count(),
            r.spec_job().spec_delta_t() == self.spec_job().spec_delta_t(),
    {
        let Job {
            pos,
            vel,
            acc,
            boundaries,
            potential: _,
            props,
            step_count,
            delta_t,
            more_cycles,
        } = self.0;
        JobSetup(
            Job { pos, vel, acc, boundaries, potential, props, step_count, delta_t, more_cycles },
        )
    }

    /// Installs a statistics accumulator.
    pub fn props<S2: Props<D>>(self, props: S2) -> (r: JobSetup<D, B, P, S2>)
        ensures
            r.spec_job().spec_props() == props,
            r.spec_job().sim() == self.spec_job().sim(),
            r.spec_job().spec_boundaries() == self.spec_job().spec_boundaries(),
            r.spec_job().spec_potential() == self.spec_job().spec_potential(),
            r.spec_job().spec_step_count() == self.spec_job().spec_step_count(),
            r.spec_job().spec_delta_t() == self.spec_job().spec_delta_t(),
    {
        let Job {
            pos,
            vel,
            acc,
            boundaries,
            potential,
            props: _,
            step_count,
            delta_t,
            more_cycles,
        } = self.0;
        JobSetup(
            Job { pos, vel, acc, boundaries, potential, props, step_count, delta_t, more_cycles },
        )
    }

    /// Installs a boundary scheme.
    pub fn boundaries<B2: BoundaryConditions<D>>(self, boundaries: B2) -> (r: JobSetup<
        D,
        B2,
        P,
        S,
    >) where P: PotentialEnergy<D, B2>
        ensures
            r.spec_job().spec_boundaries() == boundaries,
            r.spec_job().sim() == self.spec_job().sim(),
            r.spec_job().spec_potential() == self.spec_job().spec_potential(),
            r.spec_job().spec_props() == self.spec_job().spec_props(),
            r.spec_job().spec_step_count() == self.spec_job().spec_step_count(),
            r.spec_job().spec_delta_t() == self.spec_job().spec_delta_t(),
    {
        let Job {
            pos,
            vel,
            acc,
            boundaries: _,
            potential,
            props,
            step_count,
            delta_t,
            more_cycles,
        } = self.0;
        JobSetup(
            Job { pos, vel, acc, boundaries, potential, props, step_count, delta_t, more_cycles },
        )
    }

    /// Installs a complete state — positions, velocities and accelerations,
    /// one entry each per particle — as restored from a checkpoint.
    pub fn state(
        self,
        pos: Vec<DVector<D>>,
        vel: Vec<DVector<D>>,
        acc: Vec<DVector<D>>,
    ) -> (r: Self)
        requires
            vel@.len() == pos@.len(),
            acc@.len() == pos@.len(),
            all_wf(pos@),
            all_wf(vel@),
            all_wf(acc@),
        ensures
            r.spec_job().sim() == state_of(pos@, vel@, acc@),
            r.spec_job().sim().wf(D as nat),
            r.spec_job().spec_boundaries() == self.spec_job().spec_boundaries(),
            r.spec_job().spec_potential() == self.spec_job().spec_potential(),
            r.spec_job().spec_props() == self.spec_job().spec_props(),
            r.spec_job().spec_step_count() == self.spec_job().spec_step_count(),
            r.spec_job().spec_delta_t() == self.spec_job().spec_delta_t(),
    {
        let mut job = self.0;
        job.pos = pos;
        job.vel = vel;
        job.acc = acc;
        proof {
            crate::d_vector::lemma_all_wf_views::<D>(job.pos@);
            crate::d_vector::lemma_all_wf_views::<D>(job.vel@);
            crate::d_vector::lemma_all_wf_views::<D>(job.acc@);
        }
        JobSetup(job)
    }

    /// Installs the initial positions; velocities and accelerations are
    /// zeroed, one entry per particle.
    pub fn init_pos(self, pos: Vec<DVector<D>>) -> (r: Self)
        requires
            all_wf(pos@),
        ensures
            r.spec_job().sim().pos == views_of(pos@),
            r.spec_job().sim().vel == Seq::new(pos@.len() as nat, |i: int| zero_vec(D as nat)),
            r.spec_job().sim().acc == Seq::new(pos@.len() as nat, |i: int| zero_vec(D as nat)),
            r.spec_job().sim().wf(D as nat),
            r.spec_job().spec_boundaries() == self.spec_job().spec_boundaries(),
            r.spec_job().spec_potential() == self.spec_job().spec_potential(),
            r.spec_job().spec_props() == self.spec_job().spec_props(),
            r.spec_job().spec_step_count() == self.spec_job().spec_step_count(),
            r.spec_job().spec_delta_t() == self.spec_job().spec_delta_t(),
    {
        let mut job = self.0;
        let n_mol = pos.len();
        let mut vel: Vec<DVector<D>> = Vec::new();
        let mut acc: Vec<DVector<D>> = Vec::new();
        for i in 0..n_mol
            invariant
                vel@.len() == i,
                acc@.len() == i,
                forall|j: int| 0 <= j < i ==> (#[trigger] vel@[j])@ == zero_vec(D as nat),
                forall|j: int| 0 <= j < i ==> (#[trigger] acc@[j])@ == zero_vec(D as nat),
        {
            vel.push(DVector::zero());
            acc.push(DVector::zero());
        }
        job.pos = pos;
        job.vel = vel;
        job.acc = acc;
        proof {
            assert(views_of(job.vel@) =~= Seq::new(
                job.pos@.len() as nat,
                |i: int| zero_vec(D as nat),
            ));
            assert(views_of(job.acc@) =~= Seq::new(
                job.pos@.len() as nat,
                |i: int| zero_vec(D as nat),
            ));
        }
        JobSetup(job)
    }

    /// Assigns each particle a velocity of magnitude `vel_mag` along its
    /// given direction, then shifts every velocity by `-1/n_mol` times
    /// their sum, re-centering the total momentum on zero.  The direction
    /// sampler is the caller's: any unit-vector-producing source serves.
    pub fn random_vel(self, vel_mag: u32, directions: &Vec<DVector<D>>) -> (r: Self)
        requires
            self.spec_job().wf(),
            directions@.len() == self.spec_job().sim().vel.len(),
            all_wf(directions@),
        ensures
            r.spec_job().wf(),
            r.spec_job().sim().pos == self.spec_job().sim().pos,
            r.spec_job().sim().acc == self.spec_job().sim().acc,
            r.spec_job().sim().vel == thermal_velocities::<D>(
                views_of(directions@),
                vel_mag,
                directions@.len() as usize,
            ),
            r.spec_job().spec_boundaries() == self.spec_job().spec_boundaries(),
            r.spec_job().spec_potential() == self.spec_job().spec_potential(),
            r.spec_job().spec_props() == self.spec_job().spec_props(),
            r.spec_job().spec_step_count() == self.spec_job().spec_step_count(),
            r.spec_job().spec_delta_t() == self.spec_job().spec_delta_t(),
    {
        let mut job = self.0;
        let ghost job0 = job;
        let n_mol = job.vel.len();
        proof {
            crate::d_vector::lemma_all_wf_views::<D>(job.vel@);
        }
        let ghost scaled = Seq::new(
            views_of(directions@).len(),
            |i: int| vscale(views_of(directions@)[i], vel_mag),
        );
        for i in 0..n_mol
            invariant
                job.vel@.len() == n_mol,
                directions@.len() == n_mol,
                all_wf(directions@),
                all_wf(job.vel@),
                job.pos == job0.pos,
                job.acc == job0.acc,
                job.boundaries == job0.boundaries,
                job.potential == job0.potential,
                job.props == job0.props,
                job.step_count == job0.step_count,
                job.delta_t == job0.delta_t,
                job.more_cycles == job0.more_cycles,
                scaled == Seq::new(
                    views_of(directions@).len(),
                    |i: int| vscale(views_of(directions@)[i], vel_mag),
                ),
                forall|j: int| 0 <= j < i ==> (#[trigger] job.vel@[j])@ == scaled[j],
        {
            proof {
                assert(views_of(directions@)[i as int] == directions@[i as int]@);
                assert(directions@[i as int].wf());
            }
            let scaled_i = directions[i].scaled_by(vel_mag);
            job.vel.set(i, scaled_i);
        }
        proof {
            assert(views_of(job.vel@) =~= scaled);
            crate::d_vector::lemma_all_wf_views::<D>(job.vel@);
            assert(job.sim().wf(D as nat));
        }
        let sum = job.vel_sum();
        let shift = sum.scaled_by(r_div(NEG_ONE_BITS, r_of_usize(n_mol)));
        let ghost mid = job.vel@;
        for i in 0..n_mol
            invariant
                job.vel@.len() == n_mol,
                mid.len() == n_mol,
                all_wf(mid),
                all_wf(job.vel@),
                shift.wf(),
                job.pos == job0.pos,
                job.acc == job0.acc,
                job.boundaries == job0.boundaries,
                job.potential == job0.potential,
                job.props == job0.props,
                job.step_count == job0.step_count,
                job.delta_t == job0.delta_t,
                job.more_cycles == job0.more_cycles,
                forall|j: int| 0 <= j < i
                    ==> (#[trigger] job.vel@[j])@ == vadd(mid[j]@, shift@),
                forall|j: int| i <= j < n_mol ==> job.vel@[j] == mid[j],
        {
            let updated = job.vel[i].add(&shift);
            job.vel.set(i, updated);
        }
        proof {
            assert(views_of(job.vel@) =~= thermal_velocities::<D>(
                views_of(directions@),
                vel_mag,
                n_mol,
            ));
            crate::d_vector::lemma_all_wf_views::<D>(job.vel@);
        }
        JobSetup(job)
    }

    /// Finishes the assembly.
    pub fn job(self) -> (r: Job<D, B, P, S>)
        ensures
            r == self.spec_job(),
    {
        self.0
    }
}

} // verus!
