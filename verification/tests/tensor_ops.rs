use rand::distributions::{Distribution, Standard};
use rand::Rng;
use rusty_grad::scalar::Scalar;
use rusty_grad::index::{
    flat_idx, get_postfix_prod, joint_shape, shape_is_addressable, shapes_compatible, source_of,
    unravel_index, volume_of,
};
use rusty_grad::tensor::{elementwise_broadcasted_map, elementwise_map, max, Tensor};

#[derive(Clone, Copy, Debug, PartialEq)]
struct Real(f64);

impl Scalar for Real {
    fn of_count(n: usize) -> Self {
        Real(n as f64)
    }

    fn sum(self, rhs: Self) -> Self {
        Real(self.0 + rhs.0)
    }

    fn difference(self, rhs: Self) -> Self {
        Real(self.0 - rhs.0)
    }

    fn product(self, rhs: Self) -> Self {
        Real(self.0 * rhs.0)
    }

    fn quotient(self, rhs: Self) -> Self {
        Real(self.0 / rhs.0)
    }

    fn exceeds(self, rhs: Self) -> bool {
        self.0 > rhs.0
    }

    fn from_count(n: usize) -> Self {
        Real(n as f64)
    }

    fn add(self, rhs: Self) -> Self {
        Real(self.0 + rhs.0)
    }

    fn sub(self, rhs: Self) -> Self {
        Real(self.0 - rhs.0)
    }

    fn mul(self, rhs: Self) -> Self {
        Real(self.0 * rhs.0)
    }

    fn div(self, rhs: Self) -> Self {
        Real(self.0 / rhs.0)
    }

    fn gt(self, rhs: Self) -> bool {
        self.0 > rhs.0
    }
}

fn reals(values: &[f64]) -> Vec<Real> {
    values.iter().map(|v| Real(*v)).collect()
}

fn floats(values: &[Real]) -> Vec<f64> {
    values.iter().map(|v| v.0).collect()
}

impl Distribution<Real> for Standard {
    fn sample<R: Rng + ?Sized>(&self, rng: &mut R) -> Real {
        Real(rng.gen())
    }
}

fn shaped(values: &[f64], shape: &[usize]) -> Tensor<Real> {
    Tensor::from_vec(reals(values), &shape.to_vec()).unwrap()
}

#[test]
fn test_transpose() {
    let a: Tensor<Real> = Tensor::rand(&vec![4, 4]);
    let a_t = a.transpose(0, 1);
    assert!(a.at(&vec![2, 3]).unwrap() == a_t.at(&vec![3, 2]).unwrap());
}

#[test]
fn test_broadcasting_7() {
    let t: Tensor<Real> = Tensor::rand(&vec![1, 2, 3]);
    let scalar: &[Real] = &[Real(1.)];
    let scalar = Tensor::from(scalar);
    Tensor::add(&t, &scalar).unwrap();
}

#[test]
fn test_add() {
    let l = shaped(&[1., 2., 3.], &[1, 3]);
    let r = shaped(&[7., 2.], &[1, 2, 1]);

    let res = Tensor::add(&l, &r).unwrap();
    println!("{:?}", floats(res.data()));
    assert_eq!(res.size(), &[1, 2, 3]);
    assert_eq!(floats(res.data()), &[8., 9., 10., 3., 4., 5.]);
}

#[test]
fn test_sub() {
    let l = Tensor::from(Real(3.));
    let r = Tensor::from(Real(2.));

    let res = Tensor::sub(&l, &r).unwrap();

    assert!(res.item().unwrap() == Real(1.));
}

#[test]
fn rand_fills_the_shape_with_unit_interval_values() {
    let t: Tensor<Real> = Tensor::rand(&vec![3, 5]);
    assert_eq!(t.size(), &[3, 5]);
    assert_eq!(t.n_elements(), 15);
    assert!(t.data().iter().all(|v| 0. <= v.0 && v.0 < 1.));
    let empty: Tensor<Real> = Tensor::rand(&vec![2, 0]);
    assert_eq!(empty.n_elements(), 0);
}

#[test]
fn broadcast_output_matches_sources_at_every_coordinate() {
    let l = shaped(&[1., 2., 3., 4., 5., 6.], &[2, 3]);
    let r = shaped(&[10., 20.], &[2, 1]);
    let out = Tensor::mul(&l, &r).unwrap();
    assert_eq!(out.size(), &[2, 3]);
    for i in 0..2 {
        for j in 0..3 {
            let expected = l.at(&vec![i, j]).unwrap().0 * r.at(&vec![i, 0]).unwrap().0;
            assert_eq!(out.at(&vec![i, j]).unwrap(), Real(expected));
        }
    }
    assert_eq!(floats(out.data()), &[10., 20., 30., 80., 100., 120.]);
}

#[test]
fn broadcast_pads_missing_leading_axes() {
    let l = shaped(&[1., 2., 3., 4.], &[2, 1, 2]);
    let r = shaped(&[10., 20., 30., 40., 50., 60.], &[3, 2]);
    let out = Tensor::add(&l, &r).unwrap();
    assert_eq!(out.size(), &[2, 3, 2]);
    assert_eq!(
        floats(out.data()),
        &[11., 22., 31., 42., 51., 62., 13., 24., 33., 44., 53., 64.]
    );
}

#[test]
fn clashing_shapes_are_a_shape_error() {
    let l = shaped(&[1., 2., 3., 4., 5., 6.], &[1, 2, 3]);
    let r = shaped(&[1., 2., 3., 4., 5., 6., 7., 8.], &[2, 4]);
    assert!(Tensor::add(&l, &r).is_err());
    assert!(Tensor::sub(&l, &r).is_err());
    assert!(Tensor::mul(&l, &r).is_err());
    assert!(Tensor::div(&l, &r).is_err());
}

#[test]
fn division_by_zero_follows_the_scalar() {
    let l = Tensor::from(reals(&[1., -1., 0.]).as_slice());
    let r = Tensor::from(Real(0.));
    let out = Tensor::div(&l, &r).unwrap();
    let d = floats(out.data());
    assert_eq!(d[0], f64::INFINITY);
    assert_eq!(d[1], f64::NEG_INFINITY);
    assert!(d[2].is_nan());
}

#[test]
fn at_reads_by_coordinate_and_rejects_bad_ones() {
    let t = shaped(&[0., 1., 2., 3., 4., 5.], &[2, 3]);
    assert_eq!(t.at(&vec![0, 0]).unwrap(), Real(0.));
    assert_eq!(t.at(&vec![1, 2]).unwrap(), Real(5.));
    assert_eq!(t.get(&vec![1, 1]), Real(4.));
    // the wrong number of indices
    assert!(t.at(&vec![1]).is_err());
    assert!(t.at(&vec![0, 0, 0]).is_err());
    // a flat position outside the buffer
    assert!(t.at(&vec![2, 0]).is_err());
    assert!(t.at(&vec![usize::MAX, usize::MAX]).is_err());
    // only the flat position counts
    assert_eq!(t.at(&vec![0, 5]).unwrap(), Real(5.));
    let s = Tensor::from(Real(9.));
    assert_eq!(s.at(&vec![]).unwrap(), Real(9.));
}

#[test]
fn item_needs_exactly_one_element() {
    assert_eq!(Tensor::from(Real(4.)).item().unwrap(), Real(4.));
    assert_eq!(shaped(&[4.], &[1, 1]).item().unwrap(), Real(4.));
    assert!(shaped(&[4., 5.], &[2]).item().is_err());
    assert!(shaped(&[], &[0]).item().is_err());
}

#[test]
fn from_vec_checks_the_buffer_against_the_shape() {
    assert!(Tensor::from_vec(reals(&[1., 2., 3.]), &vec![2, 2]).is_err());
    assert!(Tensor::from_vec(reals(&[]), &vec![usize::MAX, 2, 0]).is_err());
    let t = Tensor::from_vec(reals(&[1., 2., 3., 4.]), &vec![2, 2]).unwrap();
    assert_eq!(t.size(), &[2, 2]);
    assert_eq!(t.n_elements(), 4);
}

#[test]
fn constructors() {
    let z: Tensor<Real> = Tensor::zeros(&vec![2, 3]);
    assert_eq!(z.size(), &[2, 3]);
    assert_eq!(floats(z.data()), &[0.; 6]);
    let o: Tensor<Real> = Tensor::ones(&vec![2]);
    assert_eq!(floats(o.data()), &[1., 1.]);
    let f = Tensor::full(&vec![3], Real(2.5));
    assert_eq!(floats(f.data()), &[2.5, 2.5, 2.5]);
    let s = Tensor::from_scalar(Real(7.));
    assert_eq!(s.size().len(), 0);
    assert_eq!(s.n_elements(), 1);
    let v = Tensor::from_sequence(&reals(&[1., 2., 3.]));
    assert_eq!(v.size(), &[3]);
    assert_eq!(floats(Tensor::zeros_like(&v).data()), &[0., 0., 0.]);
    assert_eq!(floats(Tensor::ones_like(&v).data()), &[1., 1., 1.]);
    let c = v.clone();
    assert_eq!(floats(c.data()), &[1., 2., 3.]);
    assert_eq!(c.size(), &[3]);
}

#[test]
fn transpose_swaps_axes_and_counts_from_the_end() {
    let t = shaped(&[0., 1., 2., 3., 4., 5.], &[2, 3]);
    let tt = t.transpose(0, 1);
    assert_eq!(tt.size(), &[3, 2]);
    for i in 0..2 {
        for j in 0..3 {
            assert_eq!(tt.at(&vec![j, i]).unwrap(), t.at(&vec![i, j]).unwrap());
        }
    }
    let back = t.transpose(-1, -2);
    assert_eq!(back.size(), &[3, 2]);
    assert_eq!(back.at(&vec![2, 1]).unwrap(), Real(5.));
    let same = t.transpose(1, -1);
    assert_eq!(same.size(), &[2, 3]);
    // elementwise results are dense again
    let dense = Tensor::add(&tt, &Tensor::from(Real(0.))).unwrap();
    assert_eq!(floats(dense.data()), &[0., 3., 1., 4., 2., 5.]);
}

#[test]
fn matmul_is_the_dense_product() {
    let a = shaped(&[1., 2., 3., 4., 5., 6.], &[2, 3]);
    let b = shaped(&[7., 8., 9., 10., 11., 12.], &[3, 2]);
    let c = a.matmul(&b);
    assert_eq!(c.size(), &[2, 2]);
    assert_eq!(floats(c.data()), &[58., 64., 139., 154.]);
    let d = Tensor::mmul(&a, &b);
    assert_eq!(floats(d.data()), &[58., 64., 139., 154.]);
    let e = a.transpose(0, 1).matmul(&b.transpose(0, 1));
    assert_eq!(e.size(), &[3, 3]);
    assert_eq!(floats(e.data()), &[39., 49., 59., 54., 68., 82., 69., 87., 105.]);
}

#[test]
fn unary_operations() {
    let t = shaped(&[-1., 0., 2., 0.5], &[2, 2]);
    assert_eq!(floats(Tensor::sqr(&t).unwrap().data()), &[1., 0., 4., 0.25]);
    assert_eq!(floats(Tensor::gt(&t, Real(0.)).data()), &[0., 0., 1., 1.]);
    assert_eq!(floats(Tensor::gt(&t, Real(-2.)).data()), &[1., 1., 1., 1.]);
    assert_eq!(floats(Tensor::relu(&t).data()), &[-0., 0., 2., 0.5]);
    let m = Tensor::mean(&t);
    assert_eq!(m.size().len(), 0);
    assert_eq!(m.item().unwrap(), Real(0.375));
    assert_eq!(Tensor::mean(&shaped(&[1., 2., 3., 4.], &[4])).item().unwrap(), Real(2.5));
}

#[test]
fn compatibility_checks() {
    let a = shaped(&[1., 2., 3., 4., 5., 6.], &[2, 3]);
    let b = shaped(&[1., 2., 3.], &[3]);
    let c = shaped(&[1., 2.], &[2]);
    assert!(Tensor::compatible(&a, &b));
    assert!(!Tensor::compatible(&a, &c));
    assert!(a.can_matmul(&a.transpose(0, 1)));
    assert!(!a.can_matmul(&a));
    assert!(!a.can_matmul(&b));
    assert_eq!(a.shape(), &vec![2, 3]);
}

#[test]
fn maps_take_any_function() {
    let l = shaped(&[1., 2., 3.], &[3]);
    let r = shaped(&[10., 20.], &[2, 1]);
    let out = elementwise_broadcasted_map(&l, &r, &|a: Real, b: Real| Real(a.0 - 2. * b.0)).unwrap();
    assert_eq!(out.size(), &[2, 3]);
    assert_eq!(floats(out.data()), &[-19., -18., -17., -39., -38., -37.]);
    let half = elementwise_map(&l, &|a: Real| Real(a.0 / 2.)).unwrap();
    assert_eq!(floats(half.data()), &[0.5, 1., 1.5]);
}

#[test]
fn index_helpers() {
    assert_eq!(max((3, 7)), 7);
    assert_eq!(max((7, 3)), 7);
    assert_eq!(max((4, 4)), 4);
    assert_eq!(get_postfix_prod(&vec![4, 2, 3]), vec![6, 3, 1]);
    assert_eq!(get_postfix_prod(&vec![]), Vec::<usize>::new());
    assert_eq!(volume_of(&vec![4, 2, 3]), 24);
    assert_eq!(volume_of(&vec![]), 1);
    assert_eq!(volume_of(&vec![4, 0, 3]), 0);
    assert_eq!(flat_idx(&vec![1, 1, 2], &vec![6, 3, 1]), Some(11));
    assert_eq!(flat_idx(&vec![1, 1], &vec![6, 3, 1]), Some(9));
    assert_eq!(flat_idx(&vec![usize::MAX, 1], &vec![2, 1]), None);
    assert_eq!(flat_idx(&vec![usize::MAX, 1], &vec![1, 1]), None);
    assert_eq!(unravel_index(11, &vec![4, 2, 3], &vec![6, 3, 1]), vec![1, 1, 2]);
    assert_eq!(unravel_index(0, &vec![], &vec![]), Vec::<usize>::new());
    assert_eq!(source_of(&vec![1, 1, 2], &vec![1, 3]), vec![0, 2]);
    assert_eq!(source_of(&vec![1, 1, 2], &vec![2, 1, 3]), vec![1, 0, 2]);
    assert_eq!(joint_shape(&vec![2, 1, 2, 1], &vec![1, 1, 3]), vec![2, 1, 2, 3]);
    assert!(shapes_compatible(&vec![2, 1], &vec![3]));
    assert!(!shapes_compatible(&vec![2], &vec![3]));
    assert!(!shapes_compatible(&vec![0], &vec![1]));
    assert!(shapes_compatible(&vec![0, 0], &vec![1, 0]));
    assert!(shape_is_addressable(&vec![4, 0, 3]));
    assert!(!shape_is_addressable(&vec![usize::MAX, 0, 3]));
}
