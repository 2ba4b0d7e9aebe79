//! The periodic boundary wrap: re-imaging, idempotence, identity inside
//! the box.

use mol_job::boundaries::{BoundaryConditions, Region};
use mol_job::d_vector::DVector;

fn b(x: f32) -> u32 {
    x.to_bits()
}

fn v2(x: f32, y: f32) -> DVector<2> {
    DVector::from_components(vec![b(x), b(y)])
}

fn comps(v: &DVector<2>) -> Vec<f32> {
    v.components().iter().map(|c| f32::from_bits(*c)).collect()
}

#[test]
fn wrap() {
    let region: Region<2> = Region::new(vec![b(1.), b(5.)]);
    let mut p = v2(1.5, -4.);
    region.wrap(&mut p);
    assert_eq!(vec![0.5, 1.], comps(&p));
    let region: Region<2> = Region::new(vec![b(1.), b(5.)]);
    let mut p = v2(0.2, -1.5);
    region.wrap(&mut p);
    assert_eq!(vec![0.2, -1.5], comps(&p));
}

#[test]
fn lib_wrap() {
    let region: Region<2> = Region::new(vec![b(1.), b(5.)]);
    let mut p = v2(1.5, -4.);
    region.wrap(&mut p);
    assert_eq!(vec![0.5, 1.], comps(&p));
    let region: Region<2> = Region::new(vec![b(1.), b(5.)]);
    let mut p = v2(0.2, -1.5);
    region.wrap(&mut p);
    assert_eq!(vec![0.2, -1.5], comps(&p));
}

#[test]
fn wrap_is_idempotent() {
    let region: Region<2> = Region::new(vec![b(1.), b(5.)]);
    let samples = [
        v2(1.4, -4.),
        v2(0.2, -1.5),
        v2(-0.5, 2.5),
        v2(0.5, -2.5),
        v2(0.49, 2.49),
        v2(1.2, -6.9),
    ];
    for p0 in samples.iter() {
        let mut once = p0.clone();
        region.wrap(&mut once);
        let mut twice = once.clone();
        region.wrap(&mut twice);
        assert_eq!(once.components(), twice.components());
    }
}

#[test]
fn wrap_identity_inside_box() {
    let region: Region<2> = Region::new(vec![b(1.), b(5.)]);
    let samples = [v2(0., 0.), v2(0.49, 2.49), v2(-0.5, -2.5), v2(0.25, -1.)];
    for p0 in samples.iter() {
        let mut p = p0.clone();
        region.wrap(&mut p);
        assert_eq!(p.components(), p0.components());
    }
}
