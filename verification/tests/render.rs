use rusty_grad::render::render;
use rusty_grad::scalar::Scalar;
use rusty_grad::tensor::{Tensor, VecTensor};

#[derive(Clone, Copy, Debug, PartialEq)]
struct Real(f64);

impl Scalar for Real {
    fn of_count(n: usize) -> Self {
        Real(n as f64)
    }

    fn sum(self, rhs: Self) -> Self {
        Real(self.0 + rhs.0)
    }

    fn difference(self, rhs: Self) -> Self {
        Real(self.0 - rhs.0)
    }

    fn product(self, rhs: Self) -> Self {
        Real(self.0 * rhs.0)
    }

    fn quotient(self, rhs: Self) -> Self {
        Real(self.0 / rhs.0)
    }

    fn exceeds(self, rhs: Self) -> bool {
        self.0 > rhs.0
    }

    fn from_count(n: usize) -> Self {
        Real(n as f64)
    }

    fn add(self, rhs: Self) -> Self {
        Real(self.0 + rhs.0)
    }

    fn sub(self, rhs: Self) -> Self {
        Real(self.0 - rhs.0)
    }

    fn mul(self, rhs: Self) -> Self {
        Real(self.0 * rhs.0)
    }

    fn div(self, rhs: Self) -> Self {
        Real(self.0 / rhs.0)
    }

    fn gt(self, rhs: Self) -> bool {
        self.0 > rhs.0
    }
}

fn reals(values: &[f64]) -> Vec<Real> {
    values.iter().map(|v| Real(*v)).collect()
}

fn floats(values: &[Real]) -> Vec<f64> {
    values.iter().map(|v| v.0).collect()
}

fn cells_of(t: &Tensor<Real>) -> Vec<String> {
    t.to_vec().iter().map(|v| format!("{:.8}", v.0.to_string())).collect()
}

#[test]
fn test_display() {
    let values: Vec<f64> = (0..24).map(|i| i as f64).collect();
    let md = Tensor::from_vec(reals(&values), &vec![4, 2, 3]).unwrap();
    let text = render(&md.size().to_vec(), &cells_of(&md));
    println!("{}", text);
    let expected = "\n[\n  [\n    [0, 1, 2],\n    [3, 4, 5],\n  ],\n  [\n    [6, 7, 8],\n    [9, 10, 11],\n  ],\n  [\n    [12, 13, 14],\n    [15, 16, 17],\n  ],\n  [\n    [18, 19, 20],\n    [21, 22, 23],\n  ],\n],\n";
    assert_eq!(text, expected);
}

#[test]
fn render_small_shapes() {
    let cells = |n: usize| (0..n).map(|i| i.to_string()).collect::<Vec<String>>();
    assert_eq!(render(&vec![], &cells(1)), "0, \n");
    assert_eq!(render(&vec![3], &cells(3)), "\n[0, 1, 2],\n");
    assert_eq!(render(&vec![1], &cells(1)), "\n[0],\n");
    assert_eq!(render(&vec![0], &cells(0)), "\n[],\n");
    assert_eq!(render(&vec![2, 2], &cells(4)), "\n[\n  [0, 1],\n  [2, 3],\n],\n");
    assert_eq!(render(&vec![2, 0], &cells(0)), "\n[\n  [],\n  [],\n],\n");
    assert_eq!(render(&vec![0, 2], &cells(0)), "\n[\n],\n");
}

#[test]
fn render_follows_the_coordinates_of_a_transposed_tensor() {
    let t = Tensor::from_vec(reals(&[0.5, 1.25, 2., 3., 4., 5.]), &vec![2, 3]).unwrap();
    let tt = t.transpose(0, 1);
    assert_eq!(floats(&tt.to_vec()), &[0.5, 3., 1.25, 4., 2., 5.]);
    let text = render(&tt.size().to_vec(), &cells_of(&tt));
    assert_eq!(text, "\n[\n  [0.5, 3],\n  [1.25, 4],\n  [2, 5],\n],\n");
}

#[test]
fn builder_writes_single_elements() {
    let mut b: VecTensor<Real> = VecTensor::zeroes(&vec![2, 3]);
    *b.at_mut(&vec![1, 2]) = Real(7.);
    *b.at_mut(&vec![0, 1]) = Real(-1.);
    assert_eq!(*b.at_mut(&vec![1, 2]), Real(7.));
    let t = b.to_tensor();
    assert_eq!(t.size(), &[2, 3]);
    assert_eq!(floats(t.data()), &[0., -1., 0., 0., 0., 7.]);
}
