//! Periodic boundary conditions.
//!
//! A [`Region`] is a `D`-dimensional box of per-axis extents, centered at
//! the origin: axis `i` spans `[-size[i]/2, size[i]/2)`.  Its wrap operation
//! re-images a position into the canonical box, one axis at a time; applied
//! to a separation vector it yields the minimum-image representative,
//! because the box is symmetric about zero.

use vstd::prelude::*;
use crate::d_vector::{DVector, vadd};
use crate::scalar::{ZERO_BITS, TWO_BITS, add_bits, sub_bits, div_bits, neg_bits, lt_bits, ge_bits,
    r_add, r_sub, r_div, r_neg, r_lt, r_ge};

verus! {

/// The boundary shift applied to one axis: subtract the extent `s` when the
/// coordinate `p` is at or above `s/2`, add it when `p` is below `-s/2`,
/// otherwise zero (all in binary32, by bit pattern).
pub open spec fn wrap_shift_bits(p: u32, s: u32) -> u32 {
    if ge_bits(p, div_bits(s, TWO_BITS)) {
        sub_bits(ZERO_BITS, s)
    } else if lt_bits(p, div_bits(neg_bits(s), TWO_BITS)) {
        add_bits(ZERO_BITS, s)
    } else {
        ZERO_BITS
    }
}

/// One wrapped axis: the coordinate plus its boundary shift.
pub open spec fn wrap_axis_bits(p: u32, s: u32) -> u32 {
    add_bits(p, wrap_shift_bits(p, s))
}

/// The wrapped image of a position, axis by axis, for per-axis extents `s`.
pub open spec fn wrap_bits(p: Seq<u32>, s: Seq<u32>) -> Seq<u32> {
    Seq::new(p.len(), |i: int| wrap_axis_bits(p[i], s[i]))
}

/// The capability a boundary scheme offers the integrator and the force
/// evaluator: re-imaging a position (or a separation vector) into the
/// canonical volume.
pub trait BoundaryConditions<const D: usize>: Sized {
    /// Well-formedness of the boundary scheme itself.
    spec fn spec_wf(self) -> bool;

    /// The wrapped image of the components `p`.
    spec fn spec_wrap(self, p: Seq<u32>) -> Seq<u32>;

    /// Wrapping keeps the dimension.
    proof fn lemma_wrap_len(self, p: Seq<u32>)
        requires
            self.spec_wf(),
            p.len() == D,
        ensures
            self.spec_wrap(p).len() == D,
    ;

    /// Re-images `position` in place.
    fn wrap(&self, position: &mut DVector<D>)
        requires
            self.spec_wf(),
            old(position).wf(),
        ensures
            final(position).wf(),
            final(position)@ == self.spec_wrap(old(position)@),
    ;
}

/// A periodic box: per-axis extents, centered at the origin.
pub struct Region<const D: usize> {
    inner: DVector<D>,
}

impl<const D: usize> View for Region<D> {
    type V = Seq<u32>;

    closed spec fn view(&self) -> Seq<u32> {
        self.inner@
    }
}

impl<const D: usize> Region<D> {
    /// Structural invariant: one extent per axis.
    pub open spec fn wf(self) -> bool {
        self@.len() == D
    }

    /// Builds a region from its per-axis extents.
    pub fn new(size: Vec<u32>) -> (r: Self)
        requires
            size@.len() == D,
        ensures
            r.wf(),
            r@ == size@,
    {
        Region { inner: DVector::from_components(size) }
    }

    /// The per-axis extents.
    pub fn dimensions(&self) -> (r: &DVector<D>)
        requires
            self.wf(),
        ensures
            r.wf(),
            r@ == self@,
    {
        &self.inner
    }

    /// Whether the coordinate of `position` on axis `index` lies at or above
    /// the upper face of the box.
    fn is_above(&self, position: &DVector<D>, index: usize) -> (r: bool)
        requires
            self.wf(),
            position.wf(),
            index < D,
        ensures
            r == ge_bits(position@[index as int], div_bits(self@[index as int], TWO_BITS)),
    {
        r_ge(position.components()[index], r_div(self.inner.components()[index], TWO_BITS))
    }

    /// Whether the coordinate of `position` on axis `index` lies below the
    /// lower face of the box.
    fn is_below(&self, position: &DVector<D>, index: usize) -> (r: bool)
        requires
            self.wf(),
            position.wf(),
            index < D,
        ensures
            r == lt_bits(position@[index as int], div_bits(neg_bits(self@[index as int]), TWO_BITS)),
    {
        r_lt(position.components()[index], r_div(r_neg(self.inner.components()[index]), TWO_BITS))
    }
}

impl<const D: usize> BoundaryConditions<D> for Region<D> {
    open spec fn spec_wf(self) -> bool {
        self.wf()
    }

    open spec fn spec_wrap(self, p: Seq<u32>) -> Seq<u32> {
        wrap_bits(p, self@)
    }

    proof fn lemma_wrap_len(self, p: Seq<u32>) {
    }

    fn wrap(&self, position: &mut DVector<D>) {
        let mut shift: Vec<u32> = Vec::new();
        for i in 0..D
            invariant
                self.wf(),
                old(position).wf(),
                position == old(position),
                shift@.len() == i,
                forall|j: int| 0 <= j < i
                    ==> shift@[j] == wrap_shift_bits(old(position)@[j], self@[j]),
        {
            if self.is_above(position, i) {
                shift.push(r_sub(ZERO_BITS, self.inner.components()[i]));
            } else if self.is_below(position, i) {
                shift.push(r_add(ZERO_BITS, self.inner.components()[i]));
            } else {
                shift.push(ZERO_BITS);
            }
        }
        let shift_vector: DVector<D> = DVector::from_components(shift);
        position.add_assign(&shift_vector);
        assert(position@ =~= wrap_bits(old(position)@, self@));
    }
}

} // verus!
