//! The statistics accumulator interface.
//!
//! After each step the driver calls, in order: `eval_props` with the fresh
//! potential-energy and virial sums and the updated state, `accum_props`,
//! and — whenever `need_avg` says the averaging period is complete —
//! `avg_props`, `summarize` and `reset`, in that order.  The trivial
//! accumulator ignores everything.

use vstd::prelude::*;
use crate::d_vector::DVector;

verus! {

/// The capability set of a statistics accumulator.
pub trait Props<const D: usize>: Sized {
    /// Zeroes the running totals.
    fn reset(&mut self);

    /// Computes instantaneous derived quantities from the just-evaluated
    /// potential-energy and virial sums and the updated state.
    fn eval_props(
        &mut self,
        u_sum: u32,
        virial_sum: u32,
        pos: &Vec<DVector<D>>,
        vel: &Vec<DVector<D>>,
    );

    /// Adds the instantaneous quantities into the running totals.
    fn accum_props(&mut self);

    /// Divides the running totals by the averaging period.
    fn avg_props(&mut self);

    /// Whether the averaging period is complete at this step count.
    fn need_avg(&self, step_count: usize) -> bool;

    /// Reports the averaged values.
    fn summarize(&mut self);
}

/// The do-nothing accumulator: every capability is a no-op and no step
/// ever completes an averaging period.
#[derive(Debug, Default)]
pub struct TrivialProps<const D: usize>;

impl<const D: usize> Props<D> for TrivialProps<D> {
    fn reset(&mut self) {
    }

    fn eval_props(
        &mut self,
        u_sum: u32,
        virial_sum: u32,
        pos: &Vec<DVector<D>>,
        vel: &Vec<DVector<D>>,
    ) {
    }

    fn accum_props(&mut self) {
    }

    fn avg_props(&mut self) {
    }

    fn need_avg(&self, step_count: usize) -> (r: bool)
        ensures
            r == false,
    {
        false
    }

    fn summarize(&mut self) {
    }
}

} // verus!
