//! The pairwise potential evaluator interface.
//!
//! An evaluator computes, for the current configuration, the per-particle
//! accelerations (unit mass, so force equals acceleration) together with
//! the configuration's potential-energy and virial sums, overwriting — not
//! accumulating — its two sums on each evaluation.

use vstd::prelude::*;
use crate::boundaries::BoundaryConditions;
use crate::d_vector::{DVector, all_wf, views_of, zero_vec};
use crate::scalar::ZERO_BITS;

verus! {

/// The capability set of a pairwise potential evaluator.
///
/// The spec functions name, for every evaluator value: its well-formedness,
/// the inputs its force evaluation admits, the accelerations it computes
/// for a configuration, the evaluator value it becomes after an evaluation,
/// and its currently stored potential-energy and virial sums.
pub trait PotentialEnergy<const D: usize, B: BoundaryConditions<D>>: Sized {
    /// Well-formedness of the evaluator itself.
    spec fn spec_wf(self) -> bool;

    /// Whether a configuration of `n_mol` particles may be evaluated.
    spec fn forces_req(self, n_mol: nat) -> bool;

    /// The accelerations computed for the configuration `pos` under the
    /// boundary scheme `b`.
    spec fn spec_acc(self, b: B, pos: Seq<Seq<u32>>) -> Seq<Seq<u32>>;

    /// The evaluator after evaluating the configuration `pos` (its stored
    /// sums overwritten; its configuration unchanged).
    spec fn spec_step(self, b: B, pos: Seq<Seq<u32>>) -> Self;

    /// The stored potential-energy sum of the last evaluation.
    spec fn u_of(self) -> u32;

    /// The stored virial sum of the last evaluation.
    spec fn v_of(self) -> u32;

    /// Laws every evaluator obeys: an evaluation yields one acceleration of
    /// dimension `D` per particle, preserves well-formedness, and does not
    /// change which configurations it admits.
    proof fn lemma_spec_step(self, b: B, pos: Seq<Seq<u32>>)
        requires
            self.spec_wf(),
            b.spec_wf(),
            forall|i: int| 0 <= i < pos.len() ==> (#[trigger] pos[i]).len() == D,
        ensures
            self.spec_acc(b, pos).len() == pos.len(),
            forall|i: int| 0 <= i < pos.len()
                ==> (#[trigger] self.spec_acc(b, pos)[i]).len() == D,
            self.spec_step(b, pos).spec_wf(),
            forall|n: nat| #[trigger] self.spec_step(b, pos).forces_req(n) == self.forces_req(n),
    ;

    /// Evaluates the configuration `pos`: overwrites `acc` with one
    /// acceleration per particle and the stored sums with this
    /// configuration's potential-energy and virial sums.
    fn compute_forces(&mut self, pos: &Vec<DVector<D>>, acc: &mut Vec<DVector<D>>, boundaries: &B)
        requires
            old(self).spec_wf(),
            boundaries.spec_wf(),
            old(self).forces_req(pos@.len() as nat),
            all_wf(pos@),
            old(acc)@.len() == pos@.len(),
        ensures
            final(self).spec_wf(),
            *final(self) == old(self).spec_step(*boundaries, views_of(pos@)),
            final(acc)@.len() == pos@.len(),
            all_wf(final(acc)@),
            views_of(final(acc)@) == old(self).spec_acc(*boundaries, views_of(pos@)),
    ;

    /// The stored potential-energy sum.
    fn u_sum(&self) -> (r: u32)
        ensures
            r == self.u_of(),
    ;

    /// The stored virial sum.
    fn virial_sum(&self) -> (r: u32)
        ensures
            r == self.v_of(),
    ;
}

/// A potential that exerts no force at all: every evaluation yields zero
/// accelerations and zero sums, for any configuration, of any size.
#[derive(Debug, Default, PartialEq, Eq, Structural)]
pub struct NoInteraction;

impl<const D: usize, B: BoundaryConditions<D>> PotentialEnergy<D, B> for NoInteraction {
    open spec fn spec_wf(self) -> bool {
        true
    }

    open spec fn forces_req(self, n_mol: nat) -> bool {
        true
    }

    open spec fn spec_acc(self, b: B, pos: Seq<Seq<u32>>) -> Seq<Seq<u32>> {
        Seq::new(pos.len(), |i: int| zero_vec(D as nat))
    }

    open spec fn spec_step(self, b: B, pos: Seq<Seq<u32>>) -> Self {
        self
    }

    open spec fn u_of(self) -> u32 {
        ZERO_BITS
    }

    open spec fn v_of(self) -> u32 {
        ZERO_BITS
    }

    proof fn lemma_spec_step(self, b: B, pos: Seq<Seq<u32>>) {
    }

    fn compute_forces(&mut self, pos: &Vec<DVector<D>>, acc: &mut Vec<DVector<D>>, boundaries: &B) {
        let n = acc.len();
        for i in 0..n
            invariant
                acc@.len() == n,
                forall|j: int| 0 <= j < i ==> (#[trigger] acc@[j])@ == zero_vec(D as nat),
        {
            acc.set(i, DVector::zero());
        }
        assert forall|j: int| 0 <= j < acc@.len() implies (#[trigger] acc@[j]).wf() by {}
        assert(views_of(acc@) =~= Seq::new(pos@.len() as nat, |i: int| zero_vec(D as nat)));
    }

    fn u_sum(&self) -> (r: u32) {
        ZERO_BITS
    }

    fn virial_sum(&self) -> (r: u32) {
        ZERO_BITS
    }
}

} // verus!
