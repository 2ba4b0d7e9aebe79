//! The initial configuration generator.
//!
//! `cubic_lattice` places `dim^D` particles at the cell centers of a cubic
//! lattice, where `dim = floor(n_mol^(1/D))` — when `n_mol` is not a
//! perfect `D`-th power, fewer than `n_mol` sites are placed; that is a
//! documented limitation, not corrected here.  The cell count per axis is
//! computed exactly, in integers; sites are enumerated in row-major order
//! (the outermost axis varies slowest), and the finished lattice is shifted
//! by half a box so it is centered at the origin.

use vstd::prelude::*;
use vstd::arithmetic::power::{pow, lemma_pow_positive, lemma_pow_increases, lemma_pow1, lemma0_pow};
use crate::boundaries::Region;
use crate::d_vector::{DVector, all_wf, vadd};
use crate::scalar::{HALF_BITS, NEG_HALF_BITS, div_bits, mul_bits, add_bits, real_of_usize, r_div,
    r_add, r_mul, r_of_usize};

verus! {

/// The product of the first `n` cell counts, in order.
pub open spec fn product_prefix(cells: Seq<usize>, n: int) -> int
    decreases n,
{
    if n <= 0 {
        1
    } else {
        product_prefix(cells, n - 1) * cells[n - 1]
    }
}

/// The number of lattice sites: the product of the per-axis cell counts.
pub fn number_of_atoms(cells: &Vec<usize>) -> (r: usize)
    requires
        forall|j: int| 0 <= j <= cells@.len() ==> #[trigger] product_prefix(cells@, j)
            <= usize::MAX,
    ensures
        r == product_prefix(cells@, cells@.len() as int),
{
    let mut result: usize = 1;
    let n = cells.len();
    for i in 0..n
        invariant
            n == cells@.len(),
            result == product_prefix(cells@, i as int),
            forall|j: int| 0 <= j <= cells@.len() ==> #[trigger] product_prefix(cells@, j)
                <= usize::MAX,
    {
        proof {
            assert(product_prefix(cells@, i + 1)
                == product_prefix(cells@, i as int) * cells@[i as int]);
            assert(product_prefix(cells@, i + 1) <= usize::MAX);
            assert(product_prefix(cells@, i + 1) >= 0) by (nonlinear_arith)
                requires
                    product_prefix(cells@, i + 1)
                        == product_prefix(cells@, i as int) * cells@[i as int],
                    product_prefix(cells@, i as int) >= 0,
                    cells@[i as int] >= 0,
            ;
        }
        result = result * cells[i];
    }
    result
}

/// `pow` does not shrink the base: `b <= pow(b, e)` whenever `e >= 1`.
proof fn lemma_pow_ge_base(b: nat, e: nat)
    requires
        e >= 1,
    ensures
        b <= pow(b as int, e),
{
    if b == 0 {
        lemma0_pow(e);
    } else {
        lemma_pow1(b as int);
        lemma_pow_increases(b, 1, e);
    }
}

/// `pow` of a natural base is never negative.
proof fn lemma_pow_nonneg(b: nat, e: nat)
    ensures
        pow(b as int, e) >= 0,
{
    if b == 0 {
        reveal(pow);
        if e > 0 {
            lemma0_pow(e);
        }
    } else {
        lemma_pow_positive(b as int, e);
    }
}

/// `pow` is monotone in the base.
proof fn lemma_pow_base_mono(a: nat, b: nat, e: nat)
    requires
        a <= b,
    ensures
        pow(a as int, e) <= pow(b as int, e),
    decreases e,
{
    if e > 0 {
        lemma_pow_base_mono(a, b, (e - 1) as nat);
        lemma_pow_nonneg(a, (e - 1) as nat);
        lemma_pow_nonneg(b, (e - 1) as nat);
        assert(a as int * pow(a as int, (e - 1) as nat) <= b as int * pow(b as int, (e - 1) as nat))
            by (nonlinear_arith)
            requires
                0 <= a as int,
                (a as int) <= (b as int),
                pow(a as int, (e - 1) as nat) <= pow(b as int, (e - 1) as nat),
                pow(a as int, (e - 1) as nat) >= 0,
        ;
        assert(pow(a as int, e) == a as int * pow(a as int, (e - 1) as nat)) by {
            reveal(pow);
        }
        assert(pow(b as int, e) == b as int * pow(b as int, (e - 1) as nat)) by {
            reveal(pow);
        }
    } else {
        assert(pow(a as int, e) == 1 && pow(b as int, e) == 1) by {
            reveal(pow);
        }
    }
}

/// `pow` is strictly monotone in the base for a positive exponent.
proof fn lemma_pow_base_strict_mono(a: nat, b: nat, e: nat)
    requires
        a < b,
        e >= 1,
    ensures
        pow(a as int, e) < pow(b as int, e),
    decreases e,
{
    if e == 1 {
        lemma_pow1(a as int);
        lemma_pow1(b as int);
    } else {
        lemma_pow_base_strict_mono(a, b, (e - 1) as nat);
        lemma_pow_positive(b as int, (e - 1) as nat);
        lemma_pow_nonneg(a, (e - 1) as nat);
        assert(a as int * pow(a as int, (e - 1) as nat) < b as int * pow(b as int, (e - 1) as nat))
            by (nonlinear_arith)
            requires
                0 <= a as int,
                (a as int) < (b as int),
                pow(a as int, (e - 1) as nat) < pow(b as int, (e - 1) as nat),
                pow(a as int, (e - 1) as nat) >= 0,
                pow(b as int, (e - 1) as nat) > 0,
        ;
        assert(pow(a as int, e) == a as int * pow(a as int, (e - 1) as nat)) by {
            reveal(pow);
        }
        assert(pow(b as int, e) == b as int * pow(b as int, (e - 1) as nat)) by {
            reveal(pow);
        }
    }
}

/// The exact integer `e`-th root, rounded down: the largest `d` with
/// `d^e <= n`.
pub open spec fn root_floor(n: nat, e: nat) -> nat
    decreases n,
{
    if n == 0 {
        0
    } else if pow((root_floor((n - 1) as nat, e) + 1) as int, e) <= n {
        root_floor((n - 1) as nat, e) + 1
    } else {
        root_floor((n - 1) as nat, e)
    }
}

/// `root_floor(n, e)` is bracketed: its `e`-th power is at most `n`, and
/// the next integer's `e`-th power exceeds `n`.
pub proof fn lemma_root_floor_bracket(n: nat, e: nat)
    requires
        e >= 1,
    ensures
        pow(root_floor(n, e) as int, e) <= n,
        n < pow((root_floor(n, e) + 1) as int, e),
        root_floor(n, e) <= n,
    decreases n,
{
    if n == 0 {
        lemma0_pow(e);
        lemma_pow_positive(1, e);
        lemma_pow1(1);
        lemma_pow_increases(1, 1, e);
    } else {
        lemma_root_floor_bracket((n - 1) as nat, e);
        let r = root_floor((n - 1) as nat, e);
        if pow((r + 1) as int, e) <= n {
            lemma_pow_base_strict_mono(r + 1, r + 2, e);
        }
    }
}

/// Any `d` bracketed like `root_floor(n, e)` is `root_floor(n, e)`.
pub proof fn lemma_root_floor_unique(n: nat, e: nat, d: nat)
    requires
        e >= 1,
        pow(d as int, e) <= n,
        n < pow((d + 1) as int, e),
    ensures
        d == root_floor(n, e),
{
    let r = root_floor(n, e);
    lemma_root_floor_bracket(n, e);
    if d < r {
        lemma_pow_base_mono(d + 1, r, e);
    }
    if r < d {
        lemma_pow_base_mono(r + 1, d, e);
    }
}

/// Whether `d^e <= n`, computed without overflow.
fn pow_le(d: usize, e: usize, n: usize) -> (r: bool)
    ensures
        r == (pow(d as int, e as nat) <= n),
{
    if d == 0 {
        proof {
            reveal(pow);
            if e > 0 {
                lemma0_pow(e as nat);
            }
        }
        if e == 0 {
            return n >= 1;
        }
        return true;
    }
    if n == 0 {
        proof {
            lemma_pow_positive(d as int, e as nat);
        }
        return false;
    }
    let mut acc: usize = 1;
    proof {
        assert(pow(d as int, 0nat) == 1) by {
            reveal(pow);
        }
    }
    for i in 0..e
        invariant
            d >= 1,
            acc == pow(d as int, i as nat),
            acc <= n,
        decreases e - i,
    {
        if acc > n / d {
            proof {
                assert(acc * d > n) by (nonlinear_arith)
                    requires
                        d >= 1,
                        acc > n / d,
                        n == d * (n / d) + n % d,
                        0 <= n % d < d,
                ;
                assert(pow(d as int, (i + 1) as nat) == d * pow(d as int, i as nat)) by {
                    reveal(pow);
                }
                lemma_pow_increases(d as nat, (i + 1) as nat, e as nat);
            }
            return false;
        }
        proof {
            assert(acc * d <= n) by (nonlinear_arith)
                requires
                    d >= 1,
                    acc <= n / d,
                    n == d * (n / d) + n % d,
                    0 <= n % d < d,
                    acc >= 0,
            ;
            assert(pow(d as int, (i + 1) as nat) == d * pow(d as int, i as nat)) by {
                reveal(pow);
            }
        }
        acc = acc * d;
    }
    true
}

/// Raises `b` to the `e`-th power.
fn pow_exec(b: usize, e: usize) -> (r: usize)
    requires
        pow(b as int, e as nat) <= usize::MAX,
    ensures
        r == pow(b as int, e as nat),
{
    let mut acc: usize = 1;
    proof {
        assert(pow(b as int, 0nat) == 1) by {
            reveal(pow);
        }
    }
    for i in 0..e
        invariant
            acc == pow(b as int, i as nat),
            pow(b as int, e as nat) <= usize::MAX,
    {
        proof {
            assert(pow(b as int, (i + 1) as nat) == b * pow(b as int, i as nat)) by {
                reveal(pow);
            }
            if b >= 1 {
                lemma_pow_increases(b as nat, (i + 1) as nat, e as nat);
            } else {
                lemma0_pow((i + 1) as nat);
            }
            lemma_pow_nonneg(b as nat, (i + 1) as nat);
            assert(acc * b == pow(b as int, (i + 1) as nat)) by (nonlinear_arith)
                requires
                    acc == pow(b as int, i as nat),
                    pow(b as int, (i + 1) as nat) == b * pow(b as int, i as nat),
            ;
        }
        acc = acc * b;
    }
    acc
}

/// The per-axis cell count of the lattice for `n_mol` particles:
/// the exact floor of the `D`-th root.
pub fn lattice_dim<const D: usize>(n_mol: usize) -> (dim: usize)
    requires
        D >= 1,
    ensures
        dim == root_floor(n_mol as nat, D as nat),
        pow(dim as int, D as nat) <= n_mol,
        n_mol < pow((dim + 1) as int, D as nat),
        dim <= n_mol,
{
    let mut d: usize = 0;
    proof {
        lemma0_pow(D as nat);
    }
    loop
        invariant
            D >= 1,
            d <= n_mol,
            pow(d as int, D as nat) <= n_mol,
        ensures
            pow(d as int, D as nat) <= n_mol,
            n_mol < pow((d + 1) as int, D as nat),
        decreases n_mol - d,
    {
        if d == usize::MAX {
            proof {
                lemma_pow_ge_base((d + 1) as nat, D as nat);
            }
            break;
        }
        if pow_le(d + 1, D, n_mol) {
            proof {
                lemma_pow_ge_base((d + 1) as nat, D as nat);
            }
            d = d + 1;
        } else {
            break;
        }
    }
    proof {
        lemma_root_floor_unique(n_mol as nat, D as nat, d as nat);
    }
    d
}

/// The per-axis gap between cell centers: the region extent divided by the
/// cell count, axis by axis.
fn calc_gap<const D: usize>(dimensions: &DVector<D>, cells: &Vec<usize>) -> (r: Vec<u32>)
    requires
        dimensions.wf(),
        cells@.len() == D,
    ensures
        r@.len() == D,
        forall|a: int| 0 <= a < D ==> r@[a] == div_bits(
            dimensions@[a],
            real_of_usize(cells@[a]),
        ),
{
    let mut result: Vec<u32> = Vec::new();
    for a in 0..D
        invariant
            dimensions.wf(),
            cells@.len() == D,
            result@.len() == a,
            forall|j: int| 0 <= j < a ==> result@[j] == div_bits(
                dimensions@[j],
                real_of_usize(cells@[j]),
            ),
    {
        result.push(r_div(dimensions.components()[a], r_of_usize(cells[a])));
    }
    result
}

/// The row-major digit of site `k` on axis `a`, for a uniform per-axis
/// cell count `dim` in `d` dimensions.
pub open spec fn site_digit(k: nat, dim: nat, a: int, d: nat) -> nat {
    (((k as int) / pow(dim as int, (d - 1 - a) as nat)) % (dim as int)) as nat
}

/// The unshifted position of site `k`: per axis, the cell-center
/// coordinate `(0.5 + digit) * gap`.
pub open spec fn lattice_site<const D: usize>(k: nat, dim: nat, gaps: Seq<u32>) -> Seq<u32> {
    Seq::new(
        D as nat,
        |a: int| mul_bits(
            add_bits(HALF_BITS, real_of_usize(site_digit(k, dim, a, D as nat) as usize)),
            gaps[a],
        ),
    )
}

/// Fills `pos` with the `total = dim^D` lattice sites, in row-major order.
fn lattice<const D: usize>(dim: usize, gaps: &Vec<u32>, total: usize, pos: &mut Vec<DVector<D>>)
    requires
        D >= 1,
        gaps@.len() == D,
        total == pow(dim as int, D as nat),
        old(pos)@.len() == 0,
    ensures
        final(pos)@.len() == total,
        all_wf(final(pos)@),
        forall|k: int| 0 <= k < total ==> (#[trigger] final(pos)@[k])@ == lattice_site::<D>(
            k as nat,
            dim as nat,
            gaps@,
        ),
{
    let mut pows: Vec<usize> = Vec::new();
    for a in 0..D
        invariant
            D >= 1,
            total == pow(dim as int, D as nat),
            pows@.len() == a,
            forall|j: int| 0 <= j < a ==> pows@[j] == pow(dim as int, (D - 1 - j) as nat),
    {
        proof {
            reveal(pow);
            if dim >= 1 {
                lemma_pow_increases(dim as nat, (D - 1 - a) as nat, D as nat);
                lemma_pow_positive(dim as int, (D - 1 - a) as nat);
            } else {
                if D - 1 - a > 0 {
                    lemma0_pow((D - 1 - a) as nat);
                }
            }
        }
        pows.push(pow_exec(dim, D - 1 - a));
    }
    proof {
        if dim == 0 {
            lemma0_pow(D as nat);
        }
    }
    for k in 0..total
        invariant
            D >= 1,
            dim >= 1 || total == 0,
            total == pow(dim as int, D as nat),
            gaps@.len() == D,
            pows@.len() == D,
            forall|j: int| 0 <= j < D ==> pows@[j] == pow(dim as int, (D - 1 - j) as nat),
            pos@.len() == k,
            all_wf(pos@),
            forall|j: int| 0 <= j < k ==> (#[trigger] pos@[j])@ == lattice_site::<D>(
                j as nat,
                dim as nat,
                gaps@,
            ),
    {
        let mut components: Vec<u32> = Vec::new();
        for a in 0..D
            invariant
                D >= 1,
                dim >= 1,
                k < total,
                total == pow(dim as int, D as nat),
                gaps@.len() == D,
                pows@.len() == D,
                forall|j: int| 0 <= j < D ==> pows@[j] == pow(dim as int, (D - 1 - j) as nat),
                components@.len() == a,
                forall|j: int| 0 <= j < a ==> components@[j] == mul_bits(
                    add_bits(
                        HALF_BITS,
                        real_of_usize(site_digit(k as nat, dim as nat, j, D as nat) as usize),
                    ),
                    gaps@[j],
                ),
        {
            proof {
                lemma_pow_positive(dim as int, (D - 1 - a) as nat);
            }
            let digit = (k / pows[a]) % dim;
            components.push(r_mul(r_add(HALF_BITS, r_of_usize(digit)), gaps[a]));
        }
        let site = DVector::from_components(components);
        proof {
            assert(site@ =~= lattice_site::<D>(k as nat, dim as nat, gaps@));
        }
        pos.push(site);
    }
}

/// Adds `shift` to every placed position.
fn shift_lattice<const D: usize>(pos: &mut Vec<DVector<D>>, shift: &DVector<D>)
    requires
        all_wf(old(pos)@),
        shift.wf(),
    ensures
        final(pos)@.len() == old(pos)@.len(),
        all_wf(final(pos)@),
        forall|k: int| 0 <= k < old(pos)@.len() ==> (#[trigger] final(pos)@[k])@ == vadd(
            old(pos)@[k]@,
            shift@,
        ),
{
    let ghost pos0 = pos@;
    let n = pos.len();
    for i in 0..n
        invariant
            pos@.len() == n,
            pos0.len() == n,
            all_wf(pos0),
            all_wf(pos@),
            shift.wf(),
            forall|j: int| 0 <= j < i ==> (#[trigger] pos@[j])@ == vadd(pos0[j]@, shift@),
            forall|j: int| i <= j < n ==> pos@[j] == pos0[j],
    {
        let updated = pos[i].add(shift);
        pos.set(i, updated);
    }
}

/// The final coordinate row of lattice site `k` for `n_mol` particles in a
/// cube of side `size`: the cell-center position, shifted by `-0.5` times
/// the side along every axis, so the lattice is centered at the origin.
pub open spec fn cubic_lattice_site<const D: usize>(n_mol: usize, size: u32, k: nat) -> Seq<u32> {
    let dim = root_floor(n_mol as nat, D as nat);
    let gaps = Seq::new(D as nat, |a: int| div_bits(size, real_of_usize(dim as usize)));
    let shift = Seq::new(D as nat, |a: int| mul_bits(size, NEG_HALF_BITS));
    vadd(lattice_site::<D>(k, dim, gaps), shift)
}

/// Builds the periodic region (a cube of side `size`) and the lattice
/// placement for `n_mol` particles: exactly `dim^D` sites with
/// `dim = floor(n_mol^(1/D))`, in row-major order, centered at the origin.
/// The side is the `D`-th root of `n_mol` over the density, a power the
/// caller computes.
pub fn cubic_lattice<const D: usize>(n_mol: usize, size: u32) -> (r: (Region<D>, Vec<DVector<D>>))
    requires
        D >= 1,
    ensures
        r.0.wf(),
        r.0@ == Seq::new(D as nat, |i: int| size),
        r.1@.len() == pow(root_floor(n_mol as nat, D as nat) as int, D as nat),
        all_wf(r.1@),
        forall|k: int| 0 <= k < r.1@.len() ==> (#[trigger] r.1@[k])@ == cubic_lattice_site::<D>(
            n_mol,
            size,
            k as nat,
        ),
{
    let dim = lattice_dim::<D>(n_mol);

    let mut cells: Vec<usize> = Vec::new();
    for a in 0..D
        invariant
            cells@.len() == a,
            forall|j: int| 0 <= j < a ==> cells@[j] == dim,
    {
        cells.push(dim);
    }

    let mut sides: Vec<u32> = Vec::new();
    for a in 0..D
        invariant
            sides@.len() == a,
            forall|j: int| 0 <= j < a ==> sides@[j] == size,
    {
        sides.push(size);
    }
    assert(sides@ =~= Seq::new(D as nat, |i: int| size));
    let region: Region<D> = Region::new(sides);

    let gaps = calc_gap(region.dimensions(), &cells);

    proof {
        lemma_product_prefix_uniform(cells@, dim, D as int);
        assert forall|j: int| 0 <= j <= cells@.len()
            implies #[trigger] product_prefix(cells@, j) <= usize::MAX by {
            lemma_product_prefix_uniform(cells@, dim, j);
            if dim >= 1 {
                lemma_pow_increases(dim as nat, j as nat, D as nat);
            } else if j > 0 {
                lemma0_pow(j as nat);
            }
        }
    }
    let total = number_of_atoms(&cells);

    let mut pos: Vec<DVector<D>> = Vec::new();
    lattice(dim, &gaps, total, &mut pos);

    let shift = region.dimensions().scaled_by(NEG_HALF_BITS);
    shift_lattice(&mut pos, &shift);

    proof {
        assert forall|k: int| 0 <= k < pos@.len() implies (#[trigger] pos@[k])@
            == cubic_lattice_site::<D>(n_mol, size, k as nat) by {
            assert(gaps@ =~= Seq::new(
                D as nat,
                |a: int| div_bits(size, real_of_usize(dim as usize)),
            ));
            assert(shift@ =~= Seq::new(D as nat, |a: int| mul_bits(size, NEG_HALF_BITS)));
        }
    }
    (region, pos)
}

/// The product of `j` uniform cell counts is the `j`-th power.
proof fn lemma_product_prefix_uniform(cells: Seq<usize>, dim: usize, j: int)
    requires
        0 <= j <= cells.len(),
        forall|i: int| 0 <= i < cells.len() ==> cells[i] == dim,
    ensures
        product_prefix(cells, j) == pow(dim as int, j as nat),
    decreases j,
{
    if j > 0 {
        lemma_product_prefix_uniform(cells, dim, j - 1);
        assert(product_prefix(cells, j) == product_prefix(cells, j - 1) * cells[j - 1]);
        assert(cells[j - 1] == dim);
        assert(pow(dim as int, j as nat) == dim * pow(dim as int, (j - 1) as nat)) by {
            reveal(pow);
        }
        vstd::arithmetic::mul::lemma_mul_is_commutative(
            dim as int,
            pow(dim as int, (j - 1) as nat),
        );
    } else {
        assert(pow(dim as int, 0nat) == 1) by {
            reveal(pow);
        }
    }
}

} // verus!
