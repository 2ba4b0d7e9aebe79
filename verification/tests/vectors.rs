//! The vector primitive: construction, arithmetic, dot products.

use mol_job::d_vector::DVector;

fn b(x: f32) -> u32 {
    x.to_bits()
}

fn v3(x: f32, y: f32, z: f32) -> DVector<3> {
    DVector::from_components(vec![b(x), b(y), b(z)])
}

fn comps(v: &DVector<3>) -> Vec<f32> {
    v.components().iter().map(|c| f32::from_bits(*c)).collect()
}

#[test]
fn it_works() {
    let v = v3(1., 0.22, 1e-6);
    assert_eq!(vec![1., 0.22, 1e-6], comps(&v));
}

#[test]
fn add_assign() {
    let mut v = v3(1., 2., 3.);
    v.add_assign(&v3(1., 0., 1.));
    assert_eq!(vec![2., 2., 4.], comps(&v));
    v.add_assign(&v3(0., 0., -2.));
    assert_eq!(vec![2., 2., 2.], comps(&v));
    let w = v.clone();
    v.add_assign(&w);
    assert_eq!(vec![4., 4., 4.], comps(&v));
    let b_vec = v3(0., 1.5, 6.3);
    v.add_assign(&b_vec);
    assert_eq!(vec![4., 5.5, 10.3], comps(&v));
}

#[test]
fn add() {
    let a = v3(1., 2., 3.);
    let b_vec = v3(4., 5., 6.);
    assert_eq!(vec![2., 4., 6.], comps(&a.add(&a)));
    assert_eq!(vec![5., 7., 9.], comps(&a.add(&b_vec)));
    assert_eq!(vec![5., 7., 9.], comps(&b_vec.add(&a)));
    let sum = a.add(&b_vec);
    assert_eq!(vec![5., 7., 9.], comps(&sum));
}

#[test]
fn number_mul_vector() {
    let v = v3(1., 2., 3.);
    assert_eq!(vec![1., 2., 3.], comps(&v.scaled_by(b(1.))));
    assert_eq!(vec![-1., -2., -3.], comps(&v.scaled_by(b(-1.))));
    assert_eq!(vec![1.5, 3., 4.5], comps(&v.scaled_by(b(1.5))));
}

#[test]
fn mul_square() {
    let a = v3(1., 2., 3.);
    let b_vec = v3(4., 5., 6.);
    assert_eq!(b(32.), a.dot(&b_vec));
    assert_eq!(b(32.), b_vec.dot(&a));
    assert_eq!(b(14.), a.dot(&a));
    assert_eq!(b(77.), b_vec.dot(&b_vec));
    assert_eq!(a.dot(&a), a.square_length());
    assert_eq!(b_vec.dot(&b_vec), b_vec.square_length());
}

#[test]
fn vector_sub() {
    let a = v3(1., 2., 3.);
    let b_vec = v3(4., 5., 6.);
    assert_eq!(vec![-3., -3., -3.], comps(&a.sub(&b_vec)));
    assert_eq!(vec![3., 3., 3.], comps(&b_vec.sub(&a)));
}

#[test]
fn zero_vector_default() {
    let z: DVector<3> = Default::default();
    assert_eq!(vec![0., 0., 0.], comps(&z));
    assert_eq!(vec![0u32, 0, 0], *z.components());
}
