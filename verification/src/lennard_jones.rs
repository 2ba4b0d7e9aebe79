//! The Lennard-Jones pairwise potential evaluator (reduced units, unit
//! mass, truncated at a cutoff radius).
//!
//! One evaluation walks every unordered pair `(j1, j2)` with `j1 < j2`, in
//! ascending order of `j1` and then of `j2` — the order is part of the
//! contract, because binary32 summation is order-sensitive and the sums
//! must be reproducible.  The spec functions below state the evaluation
//! exactly, pair by pair, over the component bit patterns.

use vstd::prelude::*;
use crate::boundaries::BoundaryConditions;
use crate::d_vector::{DVector, all_wf, all_rows_len, views_of, vadd, vsub, vscale, dot_bits,
    zero_vec};
use crate::potential::PotentialEnergy;
use crate::scalar::{ZERO_BITS, ONE_BITS, HALF_BITS, FOUR_BITS, FORTY_EIGHT_BITS, add_bits,
    sub_bits, mul_bits, div_bits, lt_bits, r_add, r_sub, r_mul, r_div, r_lt};

verus! {

/// The default cutoff radius, `2.5`, by bit pattern.
pub const R_CUT_DEFAULT: u32 = 0x4020_0000;

/// The running result of an evaluation: accelerations accumulated so far,
/// and the partial potential-energy and virial sums.
pub ghost struct LjState {
    pub acc: Seq<Seq<u32>>,
    pub u: u32,
    pub v: u32,
}

/// The contribution of the unordered pair `(j1, j2)`: the minimum-image
/// separation is wrapped by the boundary scheme; a pair at or beyond the
/// cutoff contributes nothing; otherwise the force `48·rri³·(rri³−0.5)·rri`
/// times the separation is added to particle `j1`'s acceleration and
/// subtracted from particle `j2`'s, and `4·rri³·(rri³−1)+1` and `f·rr` are
/// added to the potential-energy and virial sums.
pub open spec fn lj_pair<const D: usize, B: BoundaryConditions<D>>(
    b: B,
    pos: Seq<Seq<u32>>,
    rr_cut: u32,
    st: LjState,
    j1: int,
    j2: int,
) -> LjState {
    let dr = b.spec_wrap(vsub(pos[j1], pos[j2]));
    let rr = dot_bits(dr, dr);
    if lt_bits(rr, rr_cut) {
        let rri = div_bits(ONE_BITS, rr);
        let rri3 = mul_bits(mul_bits(rri, rri), rri);
        let force_value = mul_bits(
            mul_bits(mul_bits(FORTY_EIGHT_BITS, rri3), sub_bits(rri3, HALF_BITS)),
            rri,
        );
        let force = vscale(dr, force_value);
        let acc1 = st.acc.update(j1, vadd(st.acc[j1], force));
        let acc2 = acc1.update(j2, vsub(acc1[j2], force));
        LjState {
            acc: acc2,
            u: add_bits(
                st.u,
                add_bits(
                    mul_bits(mul_bits(FOUR_BITS, rri3), sub_bits(rri3, ONE_BITS)),
                    ONE_BITS,
                ),
            ),
            v: add_bits(st.v, mul_bits(force_value, rr)),
        }
    } else {
        st
    }
}

/// The contributions of the pairs `(j1, j2')` for `j2 <= j2' < n`, applied
/// in ascending order of `j2'`.
pub open spec fn lj_row<const D: usize, B: BoundaryConditions<D>>(
    b: B,
    pos: Seq<Seq<u32>>,
    rr_cut: u32,
    st: LjState,
    j1: int,
    j2: int,
) -> LjState
    decreases pos.len() - j2,
{
    if j2 >= pos.len() {
        st
    } else {
        lj_row(b, pos, rr_cut, lj_pair(b, pos, rr_cut, st, j1, j2), j1, j2 + 1)
    }
}

/// The contributions of all pairs whose first index is at least `j1`,
/// rows in ascending order of the first index.
pub open spec fn lj_from<const D: usize, B: BoundaryConditions<D>>(
    b: B,
    pos: Seq<Seq<u32>>,
    rr_cut: u32,
    st: LjState,
    j1: int,
) -> LjState
    decreases pos.len() - j1,
{
    if j1 + 1 >= pos.len() {
        st
    } else {
        lj_from(b, pos, rr_cut, lj_row(b, pos, rr_cut, st, j1, j1 + 1), j1 + 1)
    }
}

/// A full evaluation of the configuration `pos` with cutoff `r_cut`:
/// accelerations from zero, both sums from `0.0`, every unordered pair
/// applied once, in ascending order.
pub open spec fn lj_eval<const D: usize, B: BoundaryConditions<D>>(
    b: B,
    pos: Seq<Seq<u32>>,
    r_cut: u32,
) -> LjState {
    let init = LjState {
        acc: Seq::new(pos.len(), |i: int| zero_vec(D as nat)),
        u: ZERO_BITS,
        v: ZERO_BITS,
    };
    lj_from(b, pos, mul_bits(r_cut, r_cut), init, 0)
}

proof fn lemma_lj_pair_len<const D: usize, B: BoundaryConditions<D>>(
    b: B,
    pos: Seq<Seq<u32>>,
    rr_cut: u32,
    st: LjState,
    j1: int,
    j2: int,
)
    requires
        b.spec_wf(),
        all_rows_len(pos, D as nat),
        st.acc.len() == pos.len(),
        all_rows_len(st.acc, D as nat),
        0 <= j1 < pos.len(),
        0 <= j2 < pos.len(),
        j1 != j2,
    ensures
        lj_pair(b, pos, rr_cut, st, j1, j2).acc.len() == pos.len(),
        all_rows_len(lj_pair(b, pos, rr_cut, st, j1, j2).acc, D as nat),
{
    b.lemma_wrap_len(vsub(pos[j1], pos[j2]));
}

proof fn lemma_lj_row_len<const D: usize, B: BoundaryConditions<D>>(
    b: B,
    pos: Seq<Seq<u32>>,
    rr_cut: u32,
    st: LjState,
    j1: int,
    j2: int,
)
    requires
        b.spec_wf(),
        all_rows_len(pos, D as nat),
        st.acc.len() == pos.len(),
        all_rows_len(st.acc, D as nat),
        0 <= j1 < pos.len(),
        j1 < j2,
    ensures
        lj_row(b, pos, rr_cut, st, j1, j2).acc.len() == pos.len(),
        all_rows_len(lj_row(b, pos, rr_cut, st, j1, j2).acc, D as nat),
    decreases pos.len() - j2,
{
    if j2 < pos.len() {
        lemma_lj_pair_len(b, pos, rr_cut, st, j1, j2);
        lemma_lj_row_len(b, pos, rr_cut, lj_pair(b, pos, rr_cut, st, j1, j2), j1, j2 + 1);
    }
}

proof fn lemma_lj_from_len<const D: usize, B: BoundaryConditions<D>>(
    b: B,
    pos: Seq<Seq<u32>>,
    rr_cut: u32,
    st: LjState,
    j1: int,
)
    requires
        b.spec_wf(),
        all_rows_len(pos, D as nat),
        st.acc.len() == pos.len(),
        all_rows_len(st.acc, D as nat),
        0 <= j1,
    ensures
        lj_from(b, pos, rr_cut, st, j1).acc.len() == pos.len(),
        all_rows_len(lj_from(b, pos, rr_cut, st, j1).acc, D as nat),
    decreases pos.len() - j1,
{
    if j1 + 1 < pos.len() {
        lemma_lj_row_len(b, pos, rr_cut, st, j1, j1 + 1);
        lemma_lj_from_len(b, pos, rr_cut, lj_row(b, pos, rr_cut, st, j1, j1 + 1), j1 + 1);
    }
}

/// The Lennard-Jones evaluator: a configured cutoff radius plus the
/// potential-energy and virial sums of the most recent evaluation.
#[derive(Debug)]
pub struct LennardJones {
    r_cut: u32,
    u_sum: u32,
    v_sum: u32,
}

impl LennardJones {
    /// The configured cutoff radius, by bit pattern.
    pub closed spec fn spec_r_cut(self) -> u32 {
        self.r_cut
    }

    /// The stored potential-energy sum, by bit pattern.
    pub closed spec fn spec_u_sum(self) -> u32 {
        self.u_sum
    }

    /// The stored virial sum, by bit pattern.
    pub closed spec fn spec_v_sum(self) -> u32 {
        self.v_sum
    }

    /// The evaluator with the same cutoff and the given stored sums.
    pub closed spec fn with_sums(self, u: u32, v: u32) -> LennardJones {
        LennardJones { r_cut: self.r_cut, u_sum: u, v_sum: v }
    }

    /// What [`LennardJones::with_sums`] keeps and what it replaces.
    pub proof fn lemma_with_sums(self, u: u32, v: u32)
        ensures
            self.with_sums(u, v).spec_r_cut() == self.spec_r_cut(),
            self.with_sums(u, v).spec_u_sum() == u,
            self.with_sums(u, v).spec_v_sum() == v,
    {
    }

    /// An evaluator with the given cutoff radius and zeroed sums.
    pub fn new(r_cut: u32) -> (r: Self)
        ensures
            r.spec_r_cut() == r_cut,
            r.spec_u_sum() == ZERO_BITS,
            r.spec_v_sum() == ZERO_BITS,
    {
        LennardJones { r_cut, u_sum: ZERO_BITS, v_sum: ZERO_BITS }
    }
}

impl Default for LennardJones {
    /// The evaluator with the default cutoff radius `2.5` and zeroed sums.
    fn default() -> (r: Self)
        ensures
            r.spec_r_cut() == R_CUT_DEFAULT,
            r.spec_u_sum() == ZERO_BITS,
            r.spec_v_sum() == ZERO_BITS,
    {
        LennardJones::new(R_CUT_DEFAULT)
    }
}

impl<const D: usize, B: BoundaryConditions<D>> PotentialEnergy<D, B> for LennardJones {
    open spec fn spec_wf(self) -> bool {
        true
    }

    /// The pairwise walk assumes at least one particle.
    open spec fn forces_req(self, n_mol: nat) -> bool {
        n_mol >= 1
    }

    open spec fn spec_acc(self, b: B, pos: Seq<Seq<u32>>) -> Seq<Seq<u32>> {
        lj_eval::<D, B>(b, pos, self.spec_r_cut()).acc
    }

    open spec fn spec_step(self, b: B, pos: Seq<Seq<u32>>) -> Self {
        self.with_sums(
            lj_eval::<D, B>(b, pos, self.spec_r_cut()).u,
            lj_eval::<D, B>(b, pos, self.spec_r_cut()).v,
        )
    }

    open spec fn u_of(self) -> u32 {
        self.spec_u_sum()
    }

    open spec fn v_of(self) -> u32 {
        self.spec_v_sum()
    }

    proof fn lemma_spec_step(self, b: B, pos: Seq<Seq<u32>>) {
        let init = LjState {
            acc: Seq::new(pos.len(), |i: int| zero_vec(D as nat)),
            u: ZERO_BITS,
            v: ZERO_BITS,
        };
        lemma_lj_from_len(b, pos, mul_bits(self.spec_r_cut(), self.spec_r_cut()), init, 0);
    }

    fn compute_forces(&mut self, pos: &Vec<DVector<D>>, acc: &mut Vec<DVector<D>>, boundaries: &B) {
        let ghost pv = views_of(pos@);
        let n = pos.len();
        let r_cut = self.r_cut;
        let rr_cut = r_mul(r_cut, r_cut);

        for i in 0..n
            invariant
                acc@.len() == n,
                forall|j: int| 0 <= j < i ==> (#[trigger] acc@[j])@ == zero_vec(D as nat),
        {
            acc.set(i, DVector::zero());
        }

        let mut u_sum: u32 = ZERO_BITS;
        let mut v_sum: u32 = ZERO_BITS;

        let ghost init = LjState {
            acc: Seq::new(pv.len(), |i: int| zero_vec(D as nat)),
            u: ZERO_BITS,
            v: ZERO_BITS,
        };
        assert(views_of(acc@) =~= init.acc);
        let ghost target = lj_from(*boundaries, pv, rr_cut as u32, init, 0);

        let n_rows = n - 1;
        for j1 in 0..n_rows
            invariant
                n_rows == n - 1,
                n == pv.len(),
                n == pos@.len(),
                pv == views_of(pos@),
                all_wf(pos@),
                boundaries.spec_wf(),
                acc@.len() == n,
                all_wf(acc@),
                rr_cut == mul_bits(r_cut, r_cut),
                lj_from(
                    *boundaries,
                    pv,
                    rr_cut,
                    LjState { acc: views_of(acc@), u: u_sum, v: v_sum },
                    j1 as int,
                ) == target,
        {
            for j2 in (j1 + 1)..n
                invariant
                    n_rows == n - 1,
                    j1 < n_rows,
                    n == pv.len(),
                    n == pos@.len(),
                    pv == views_of(pos@),
                    all_wf(pos@),
                    boundaries.spec_wf(),
                    acc@.len() == n,
                    all_wf(acc@),
                    rr_cut == mul_bits(r_cut, r_cut),
                    lj_from(
                        *boundaries,
                        pv,
                        rr_cut,
                        lj_row(
                            *boundaries,
                            pv,
                            rr_cut,
                            LjState { acc: views_of(acc@), u: u_sum, v: v_sum },
                            j1 as int,
                            j2 as int,
                        ),
                        j1 + 1,
                    ) == target,
            {
                let ghost st_pre = LjState { acc: views_of(acc@), u: u_sum, v: v_sum };
                let mut dr = pos[j1].sub(&pos[j2]);
                boundaries.wrap(&mut dr);
                let rr = dr.square_length();
                if r_lt(rr, rr_cut) {
                    let rri = r_div(ONE_BITS, rr);
                    let rri3 = r_mul(r_mul(rri, rri), rri);
                    let force_value = r_mul(
                        r_mul(r_mul(FORTY_EIGHT_BITS, rri3), r_sub(rri3, HALF_BITS)),
                        rri,
                    );
                    let force = dr.scaled_by(force_value);
                    let updated_j1 = acc[j1].add(&force);
                    acc.set(j1, updated_j1);
                    let updated_j2 = acc[j2].sub(&force);
                    acc.set(j2, updated_j2);
                    u_sum = r_add(
                        u_sum,
                        r_add(
                            r_mul(r_mul(FOUR_BITS, rri3), r_sub(rri3, ONE_BITS)),
                            ONE_BITS,
                        ),
                    );
                    v_sum = r_add(v_sum, r_mul(force_value, rr));
                    proof {
                        assert(views_of(acc@) =~= lj_pair(
                            *boundaries, pv, rr_cut, st_pre, j1 as int, j2 as int,
                        ).acc);
                    }
                } else {
                    proof {
                        assert(lj_pair(*boundaries, pv, rr_cut, st_pre, j1 as int, j2 as int)
                            == st_pre);
                    }
                }
                proof {
                    let st_post = LjState { acc: views_of(acc@), u: u_sum, v: v_sum };
                    assert(st_post == lj_pair(*boundaries, pv, rr_cut, st_pre, j1 as int,
                        j2 as int));
                    assert(lj_row(*boundaries, pv, rr_cut, st_pre, j1 as int, j2 as int)
                        == lj_row(*boundaries, pv, rr_cut, st_post, j1 as int, j2 as int + 1));
                }
            }
        }

        self.u_sum = u_sum;
        self.v_sum = v_sum;
        proof {
            let st_final = LjState { acc: views_of(acc@), u: u_sum, v: v_sum };
            assert(st_final == target);
            lemma_lj_from_len(*boundaries, pv, rr_cut as u32, init, 0);
            assert forall|i: int| 0 <= i < acc@.len() implies (#[trigger] acc@[i]).wf() by {
                assert(views_of(acc@)[i] == acc@[i]@);
            }
        }
    }

    fn u_sum(&self) -> (r: u32) {
        self.u_sum
    }

    fn virial_sum(&self) -> (r: u32) {
        self.v_sum
    }
}

} // verus!
