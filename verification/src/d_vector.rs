//! The fixed-dimension vector primitive.
//!
//! A `DVector<D>` holds `D` binary32 components, each carried as its bit
//! pattern.  The value-semantics arithmetic (elementwise add and subtract,
//! scaling by a scalar, dot product, squared length) is specified exactly
//! over the component patterns by the spec functions of this module.

use vstd::prelude::*;
use crate::scalar::{ZERO_BITS, add_bits, sub_bits, mul_bits, r_add, r_sub, r_mul};

verus! {

/// The components of the zero vector of dimension `d`.
pub open spec fn zero_vec(d: nat) -> Seq<u32> {
    Seq::new(d, |i: int| ZERO_BITS)
}

/// Elementwise binary32 sum of two component sequences.
pub open spec fn vadd(a: Seq<u32>, b: Seq<u32>) -> Seq<u32> {
    Seq::new(a.len(), |i: int| add_bits(a[i], b[i]))
}

/// Elementwise binary32 difference of two component sequences.
pub open spec fn vsub(a: Seq<u32>, b: Seq<u32>) -> Seq<u32> {
    Seq::new(a.len(), |i: int| sub_bits(a[i], b[i]))
}

/// Each component multiplied by the scalar `k` (component on the left).
pub open spec fn vscale(a: Seq<u32>, k: u32) -> Seq<u32> {
    Seq::new(a.len(), |i: int| mul_bits(a[i], k))
}

/// The binary32 left-to-right sum of the first `n` componentwise products,
/// starting from `0.0`.
pub open spec fn dot_prefix(a: Seq<u32>, b: Seq<u32>, n: int) -> u32
    decreases n,
{
    if n <= 0 {
        ZERO_BITS
    } else {
        add_bits(dot_prefix(a, b, n - 1), mul_bits(a[n - 1], b[n - 1]))
    }
}

/// The binary32 dot product of two component sequences: the left-to-right
/// sum of the componentwise products, starting from `0.0`.
pub open spec fn dot_bits(a: Seq<u32>, b: Seq<u32>) -> u32 {
    dot_prefix(a, b, a.len() as int)
}

/// A `D`-dimensional vector of binary32 components, by bit pattern.
#[derive(Debug, Clone, PartialEq)]
pub struct DVector<const D: usize> {
    components: Vec<u32>,
}

impl<const D: usize> View for DVector<D> {
    type V = Seq<u32>;

    closed spec fn view(&self) -> Seq<u32> {
        self.components@
    }
}

impl<const D: usize> DeepView for DVector<D> {
    type V = Seq<u32>;

    closed spec fn deep_view(&self) -> Seq<u32> {
        self.components@
    }
}

impl<const D: usize> DVector<D> {
    /// Structural invariant: exactly `D` components.
    pub open spec fn wf(self) -> bool {
        self@.len() == D
    }

    /// Builds a vector from its component patterns.
    pub fn from_components(components: Vec<u32>) -> (r: Self)
        requires
            components@.len() == D,
        ensures
            r.wf(),
            r@ == components@,
    {
        DVector { components }
    }

    /// The component patterns, in axis order.
    pub fn components(&self) -> (r: &Vec<u32>)
        ensures
            r@ == self@,
    {
        &self.components
    }

    /// The zero vector: every component `0.0`.
    pub fn zero() -> (r: Self)
        ensures
            r.wf(),
            r@ == zero_vec(D as nat),
    {
        let mut components: Vec<u32> = Vec::new();
        for i in 0..D
            invariant
                components@.len() == i,
                forall|j: int| 0 <= j < i ==> components@[j] == ZERO_BITS,
        {
            components.push(ZERO_BITS);
        }
        let r = DVector { components };
        assert(r@ =~= zero_vec(D as nat));
        r
    }

    /// Elementwise binary32 sum.
    pub fn add(&self, rhs: &Self) -> (r: Self)
        requires
            self.wf(),
            rhs.wf(),
        ensures
            r.wf(),
            r@ == vadd(self@, rhs@),
    {
        let mut components: Vec<u32> = Vec::new();
        for i in 0..D
            invariant
                self.wf(),
                rhs.wf(),
                components@.len() == i,
                forall|j: int| 0 <= j < i ==> components@[j] == add_bits(self@[j], rhs@[j]),
        {
            components.push(r_add(self.components[i], rhs.components[i]));
        }
        let r = DVector { components };
        assert(r@ =~= vadd(self@, rhs@));
        r
    }

    /// Elementwise binary32 sum, in place.
    pub fn add_assign(&mut self, rhs: &Self)
        requires
            old(self).wf(),
            rhs.wf(),
        ensures
            final(self).wf(),
            final(self)@ == vadd(old(self)@, rhs@),
    {
        let r = self.add(rhs);
        *self = r;
    }

    /// Elementwise binary32 difference.
    pub fn sub(&self, rhs: &Self) -> (r: Self)
        requires
            self.wf(),
            rhs.wf(),
        ensures
            r.wf(),
            r@ == vsub(self@, rhs@),
    {
        let mut components: Vec<u32> = Vec::new();
        for i in 0..D
            invariant
                self.wf(),
                rhs.wf(),
                components@.len() == i,
                forall|j: int| 0 <= j < i ==> components@[j] == sub_bits(self@[j], rhs@[j]),
        {
            components.push(r_sub(self.components[i], rhs.components[i]));
        }
        let r = DVector { components };
        assert(r@ =~= vsub(self@, rhs@));
        r
    }

    /// Elementwise binary32 difference, in place.
    pub fn sub_assign(&mut self, rhs: &Self)
        requires
            old(self).wf(),
            rhs.wf(),
        ensures
            final(self).wf(),
            final(self)@ == vsub(old(self)@, rhs@),
    {
        let r = self.sub(rhs);
        *self = r;
    }

    /// Every component multiplied by the scalar `k`.
    pub fn scaled_by(&self, k: u32) -> (r: Self)
        requires
            self.wf(),
        ensures
            r.wf(),
            r@ == vscale(self@, k),
    {
        let mut components: Vec<u32> = Vec::new();
        for i in 0..D
            invariant
                self.wf(),
                components@.len() == i,
                forall|j: int| 0 <= j < i ==> components@[j] == mul_bits(self@[j], k),
        {
            components.push(r_mul(self.components[i], k));
        }
        let r = DVector { components };
        assert(r@ =~= vscale(self@, k));
        r
    }

    /// The binary32 dot product with `rhs`.
    pub fn dot(&self, rhs: &Self) -> (r: u32)
        requires
            self.wf(),
            rhs.wf(),
        ensures
            r == dot_bits(self@, rhs@),
    {
        let mut acc: u32 = ZERO_BITS;
        for i in 0..D
            invariant
                self.wf(),
                rhs.wf(),
                acc == dot_prefix(self@, rhs@, i as int),
        {
            acc = r_add(acc, r_mul(self.components[i], rhs.components[i]));
        }
        acc
    }

    /// The binary32 dot product of the vector with itself.
    pub fn square_length(&self) -> (r: u32)
        requires
            self.wf(),
        ensures
            r == dot_bits(self@, self@),
    {
        self.dot(self)
    }
}

impl<const D: usize> Default for DVector<D> {
    /// The zero vector.
    fn default() -> (r: Self)
        ensures
            r.wf(),
            r@ == zero_vec(D as nat),
    {
        DVector::zero()
    }
}

/// All vectors of a population are well formed.
pub open spec fn all_wf<const D: usize>(vs: Seq<DVector<D>>) -> bool {
    forall|i: int| 0 <= i < vs.len() ==> (#[trigger] vs[i]).wf()
}

/// Every row of a sequence of component sequences has length `d`.
pub open spec fn all_rows_len(rows: Seq<Seq<u32>>, d: nat) -> bool {
    forall|i: int| 0 <= i < rows.len() ==> (#[trigger] rows[i]).len() == d
}

/// The component views of a population of vectors, in order.
pub open spec fn views_of<const D: usize>(vs: Seq<DVector<D>>) -> Seq<Seq<u32>> {
    vs.map_values(|v: DVector<D>| v@)
}

/// A population is well formed exactly when every row of its views has
/// length `D`.
pub proof fn lemma_all_wf_views<const D: usize>(s: Seq<DVector<D>>)
    ensures
        all_wf(s) <==> all_rows_len(views_of(s), D as nat),
{
    assert forall|i: int| 0 <= i < s.len() implies #[trigger] views_of(s)[i] == s[i]@ by {}
    if all_wf(s) {
        assert forall|i: int| 0 <= i < views_of(s).len()
            implies (#[trigger] views_of(s)[i]).len() == D by {
            assert(s[i].wf());
            assert(views_of(s)[i] == s[i]@);
        }
    }
    if all_rows_len(views_of(s), D as nat) {
        assert forall|i: int| 0 <= i < s.len() implies (#[trigger] s[i]).wf() by {
            assert(views_of(s)[i].len() == D);
            assert(views_of(s)[i] == s[i]@);
        }
    }
}

} // verus!
