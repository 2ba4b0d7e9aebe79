//! The initial configuration generator: cell counts, site counts, ranges.

use mol_job::initial_state::{cubic_lattice, lattice_dim, number_of_atoms};

fn b(x: f32) -> u32 {
    x.to_bits()
}

#[test]
fn lattice_dim_is_exact_root_floor() {
    assert_eq!(10, lattice_dim::<3>(1000));
    assert_eq!(9, lattice_dim::<3>(999));
    assert_eq!(2, lattice_dim::<3>(8));
    assert_eq!(1, lattice_dim::<3>(7));
    assert_eq!(1, lattice_dim::<3>(1));
    assert_eq!(0, lattice_dim::<3>(0));
    assert_eq!(4, lattice_dim::<2>(16));
    assert_eq!(3, lattice_dim::<2>(15));
    assert_eq!(17, lattice_dim::<1>(17));
}

#[test]
fn number_of_atoms_is_cell_product() {
    assert_eq!(60, number_of_atoms(&vec![3, 4, 5]));
    assert_eq!(1, number_of_atoms(&Vec::new()));
    assert_eq!(0, number_of_atoms(&vec![4, 0, 2]));
}

#[test]
fn cubic_lattice_places_dim_cubed_sites() {
    let size = (1000.0f32 / 0.8).powf(1.0 / 3.0);
    let (_region, pos) = cubic_lattice::<3>(1000, b(size));
    assert_eq!(1000, pos.len());
}

#[test]
fn cubic_lattice_sites_lie_inside_the_region() {
    let size = (1000.0f32 / 0.8).powf(1.0 / 3.0);
    let (region, pos) = cubic_lattice::<3>(1000, b(size));
    let half: Vec<f32> = region
        .dimensions()
        .components()
        .iter()
        .map(|c| f32::from_bits(*c) / 2.0)
        .collect();
    for site in pos.iter() {
        for axis in 0..3 {
            let coordinate = f32::from_bits(site.components()[axis]);
            assert!(-half[axis] <= coordinate && coordinate < half[axis]);
        }
    }
}

#[test]
fn cubic_lattice_drops_sites_below_a_perfect_power() {
    let size = (10.0f32 / 0.8).powf(1.0 / 3.0);
    let (_region, pos) = cubic_lattice::<3>(10, b(size));
    assert_eq!(8, pos.len());
}

#[test]
fn cubic_lattice_enumerates_row_major() {
    let size = 4.0f32;
    let (_region, pos) = cubic_lattice::<2>(4, b(size));
    assert_eq!(4, pos.len());
    let gap = 2.0f32;
    let origin = -2.0f32;
    let expected = [
        (0.5f32 * gap + origin, 0.5f32 * gap + origin),
        (0.5f32 * gap + origin, 1.5f32 * gap + origin),
        (1.5f32 * gap + origin, 0.5f32 * gap + origin),
        (1.5f32 * gap + origin, 1.5f32 * gap + origin),
    ];
    for (site, want) in pos.iter().zip(expected.iter()) {
        assert_eq!(f32::from_bits(site.components()[0]), want.0);
        assert_eq!(f32::from_bits(site.components()[1]), want.1);
    }
}
