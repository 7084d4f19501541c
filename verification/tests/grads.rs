use rusty_grad::backward::{accum_grads, try_accum_grads};
use rusty_grad::node::{BinaryOp, Node, ReduceOp, UnaryOp};
use rusty_grad::ops;
use rusty_grad::ops::{AddOp, MMulOp, MeanOp, MulOp, NegOp, SqrOp, SubOp};
use rusty_grad::scalar::Scalar;
use rusty_grad::tensor::Tensor;
use std::rc::Rc;

#[derive(Clone, Copy, Debug, PartialEq)]
struct Real(f64);

impl Scalar for Real {
    fn of_count(n: usize) -> Self {
        Real(n as f64)
    }

    fn sum(self, rhs: Self) -> Self {
        Real(self.0 + rhs.0)
    }

    fn difference(self, rhs: Self) -> Self {
        Real(self.0 - rhs.0)
    }

    fn product(self, rhs: Self) -> Self {
        Real(self.0 * rhs.0)
    }

    fn quotient(self, rhs: Self) -> Self {
        Real(self.0 / rhs.0)
    }

    fn exceeds(self, rhs: Self) -> bool {
        self.0 > rhs.0
    }

    fn from_count(n: usize) -> Self {
        Real(n as f64)
    }

    fn add(self, rhs: Self) -> Self {
        Real(self.0 + rhs.0)
    }

    fn sub(self, rhs: Self) -> Self {
        Real(self.0 - rhs.0)
    }

    fn mul(self, rhs: Self) -> Self {
        Real(self.0 * rhs.0)
    }

    fn div(self, rhs: Self) -> Self {
        Real(self.0 / rhs.0)
    }

    fn gt(self, rhs: Self) -> bool {
        self.0 > rhs.0
    }
}

fn reals(values: &[f64]) -> Vec<Real> {
    values.iter().map(|v| Real(*v)).collect()
}

fn floats(values: &[Real]) -> Vec<f64> {
    values.iter().map(|v| v.0).collect()
}

fn scalar(v: f64) -> Tensor<Real> {
    Tensor::from(Real(v))
}

fn vector(values: &[f64]) -> Tensor<Real> {
    Tensor::from(reals(values).as_slice())
}

#[test]
fn test_grads_0() {
    fn forward(a: Tensor<Real>, b: Tensor<Real>) -> Rc<Node<Real>> {
        let a = Rc::new(Node::TensorParam(a, "a"));
        let b = Rc::new(Node::TensorParam(b, "b"));
        ops::add(a, b)
    }

    let a = vector(&[1.]);
    let b = vector(&[2.]);

    let output = forward(a, b);
    let dtrace = output.backwards();
    let (_val, grads_map) = (output.val(), accum_grads(dtrace));

    assert_eq!(grads_map.len(), 2);
}

#[test]
fn test_grads_1() {
    fn forward(a: Tensor<Real>, b: Tensor<Real>) -> Rc<Node<Real>> {
        let a = Rc::new(Node::TensorParam(a, "a"));
        let b = Rc::new(Node::TensorParam(b, "b"));
        ops::mul(ops::mean(a), b)
    }

    let a = vector(&[1., 2., 3., 4.]);
    let b = vector(&[8.]);

    let output = forward(a, b);
    let dtrace = output.backwards();
    let (_val, grads_map) = (output.val(), accum_grads(dtrace));

    assert_eq!(grads_map.len(), 2);

    // gradient of a: every element gets 1/len(a) * b = 1/4 * 8 = 2
    assert_eq!(floats(grads_map.get("a").unwrap().data()), &[2., 2., 2., 2.]);

    // gradient of b: mean(a) = 2.5
    assert_eq!(grads_map.get("b").unwrap().item().unwrap(), Real(2.5));
}

#[test]
fn scalar_polynomial_value_and_gradients() {
    // f = (a * b + c^2) * c = abc + c^3 at a = 2, b = 3, c = 5
    let a = Node::param(scalar(2.), "a");
    let b = Node::param(scalar(3.), "b");
    let c = Node::param(scalar(5.), "c");
    let f = ops::mul(ops::add(ops::mul(a, b), ops::sqr(c.clone())), c);
    assert_eq!(f.val().item().unwrap(), Real(155.));

    let grads = accum_grads(f.backwards());
    assert_eq!(grads.len(), 3);
    assert_eq!(grads.get("a").unwrap().item().unwrap(), Real(15.));
    assert_eq!(grads.get("b").unwrap().item().unwrap(), Real(10.));
    assert_eq!(grads.get("c").unwrap().item().unwrap(), Real(81.));
}

#[test]
fn mean_times_scalar_value_and_gradients() {
    let x = Node::param(vector(&[1., 2., 3., 4.]), "x");
    let y = Node::param(vector(&[8.]), "y");
    let f = ops::mul(ops::mean(x), y);
    assert_eq!(f.val().item().unwrap(), Real(20.));

    let grads = accum_grads(f.backwards());
    assert_eq!(floats(grads.get("x").unwrap().data()), &[2., 2., 2., 2.]);
    assert_eq!(grads.get("x").unwrap().size(), &[4]);
    assert_eq!(grads.get("y").unwrap().item().unwrap(), Real(2.5));
    assert!(grads.get("z").is_none());
    assert!(grads.contains_key("x"));
}

#[test]
fn add_hands_upstream_to_both_operands() {
    let a = Node::param(vector(&[1., 2., 3.]), "a");
    let b = Node::param(vector(&[4., 5., 6.]), "b");
    let f = ops::add(a, b);
    let upstream = vector(&[0.5, -1., 7.]);
    let grads = accum_grads(f.back_impl(upstream));
    assert_eq!(floats(grads.get("a").unwrap().data()), &[0.5, -1., 7.]);
    assert_eq!(floats(grads.get("b").unwrap().data()), &[0.5, -1., 7.]);
}

#[test]
fn sub_negates_the_right_gradient() {
    let a = Node::param(vector(&[1., 2.]), "a");
    let b = Node::param(vector(&[4., 5.]), "b");
    let f = ops::sub(a, b);
    assert_eq!(floats(f.val().data()), &[-3., -3.]);
    let grads = accum_grads(f.back_impl(vector(&[2., 3.])));
    assert_eq!(floats(grads.get("a").unwrap().data()), &[2., 3.]);
    assert_eq!(floats(grads.get("b").unwrap().data()), &[-2., -3.]);
}

#[test]
fn mul_gradients_of_scalars() {
    let a = Node::param(scalar(2.), "a");
    let b = Node::param(scalar(3.), "b");
    let f = ops::mul(a, b);
    assert_eq!(f.val().item().unwrap(), Real(6.));
    let grads = accum_grads(f.backwards());
    assert_eq!(grads.get("a").unwrap().item().unwrap(), Real(3.));
    assert_eq!(grads.get("b").unwrap().item().unwrap(), Real(2.));
}

#[test]
fn mean_gradient_shares_upstream_equally() {
    let x = Node::param(vector(&[1., 2., 3., 4.]), "x");
    let f = ops::mean(x);
    assert_eq!(f.val().item().unwrap(), Real(2.5));
    let grads = accum_grads(f.back_impl(scalar(6.)));
    assert_eq!(floats(grads.get("x").unwrap().data()), &[1.5, 1.5, 1.5, 1.5]);
}

#[test]
fn square_gradient_is_twice_the_operand() {
    let x = Node::param(vector(&[3., -2.]), "x");
    let f = ops::sqr(x);
    assert_eq!(floats(f.val().data()), &[9., 4.]);
    let grads = accum_grads(f.backwards());
    assert_eq!(floats(grads.get("x").unwrap().data()), &[6., -4.]);
}

#[test]
fn negation_gradient_is_minus_one() {
    let x = Node::param(vector(&[3., -2.]), "x");
    let f = ops::neg(x);
    assert_eq!(floats(f.val().data()), &[-3., 2.]);
    let grads = accum_grads(f.backwards());
    // the seed is a rank-0 one, so the gradient is the rank-0 minus one
    assert_eq!(grads.get("x").unwrap().item().unwrap(), Real(-1.));
    let x = Node::param(vector(&[3., -2.]), "x");
    let grads = accum_grads(ops::neg(x).back_impl(vector(&[1., 4.])));
    assert_eq!(floats(grads.get("x").unwrap().data()), &[-1., -4.]);
}

#[test]
fn relu_masks_the_gradient() {
    let x = Node::param(vector(&[3., -2., 0., 0.5]), "x");
    let f = ops::relu(x);
    assert_eq!(floats(f.val().data()), &[3., 0., 0., 0.5]);
    let grads = accum_grads(f.back_impl(vector(&[10., 20., 30., 40.])));
    assert_eq!(floats(grads.get("x").unwrap().data()), &[10., 0., 0., 40.]);
}

#[test]
fn matmul_gradients() {
    // l is 1x2, r is 2x1, f = l . r
    let l = Node::param(Tensor::from_vec(reals(&[2., 3.]), &vec![1, 2]).unwrap(), "l");
    let r = Node::param(Tensor::from_vec(reals(&[5., 7.]), &vec![2, 1]).unwrap(), "r");
    let f = ops::mmul(l, r);
    assert_eq!(floats(f.val().data()), &[31.]);
    let upstream = Tensor::from_vec(reals(&[1.]), &vec![1, 1]).unwrap();
    let grads = accum_grads(f.back_impl(upstream));
    assert_eq!(grads.get("l").unwrap().size(), &[1, 2]);
    assert_eq!(floats(grads.get("l").unwrap().data()), &[5., 7.]);
    assert_eq!(grads.get("r").unwrap().size(), &[2, 1]);
    assert_eq!(floats(grads.get("r").unwrap().data()), &[2., 3.]);
}

#[test]
fn a_name_used_twice_gets_the_sum() {
    // f = x * x with two leaves of one name: df/dx = 2x
    let x1 = Node::param(scalar(7.), "x");
    let x2 = Node::param(scalar(7.), "x");
    let f = ops::mul(x1, x2);
    let grads = accum_grads(f.backwards());
    assert_eq!(grads.len(), 1);
    assert_eq!(grads.get("x").unwrap().item().unwrap(), Real(14.));
}

#[test]
fn a_shared_node_is_visited_once_per_path() {
    let x = Node::param(scalar(3.), "x");
    let f = ops::add(x.clone(), x);
    let grads = accum_grads(f.backwards());
    assert_eq!(grads.get("x").unwrap().item().unwrap(), Real(2.));
}

#[test]
fn accumulation_does_not_depend_on_operand_order() {
    let build = |swap: bool| {
        let a = Node::param(vector(&[1., 2.]), "p");
        let b = Node::param(vector(&[3., 4.]), "p");
        let c = Node::param(vector(&[5., 6.]), "q");
        let ab = if swap { ops::mul(b, a) } else { ops::mul(a, b) };
        let f = if swap { ops::add(c, ab) } else { ops::add(ab, c) };
        accum_grads(f.backwards())
    };
    let first = build(false);
    let second = build(true);
    assert_eq!(floats(first.get("p").unwrap().data()), &[4., 6.]);
    assert_eq!(floats(second.get("p").unwrap().data()), &[4., 6.]);
    assert_eq!(floats(first.get("q").unwrap().data()), floats(second.get("q").unwrap().data()));
}

#[test]
fn same_graph_twice_gives_the_same_result() {
    let build = || {
        let a = Node::param(vector(&[0.1, 0.2, 0.3]), "a");
        let b = Node::param(vector(&[1.5]), "b");
        let f = ops::mean(ops::relu(ops::sub(ops::mul(a, b.clone()), b)));
        let grads = accum_grads(f.backwards());
        (f.val(), grads)
    };
    let (v1, g1) = build();
    let (v2, g2) = build();
    assert_eq!(floats(v1.data()), floats(v2.data()));
    assert_eq!(v1.size(), v2.size());
    assert_eq!(g1.len(), g2.len());
    assert_eq!(floats(g1.get("a").unwrap().data()), floats(g2.get("a").unwrap().data()));
    assert_eq!(floats(g1.get("b").unwrap().data()), floats(g2.get("b").unwrap().data()));
}

#[test]
fn checked_sweep_refuses_gradients_that_do_not_fit() {
    // the upstream gradient of shape [3] cannot be multiplied with operands of shape [2]
    let a = Node::param(vector(&[1., 2.]), "a");
    let b = Node::param(vector(&[3., 4.]), "b");
    let f = ops::mul(a, b);
    assert!(f.try_back_impl(vector(&[1., 1., 1.])).is_none());
    assert!(f.try_back_impl(vector(&[1., 1.])).is_some());
    assert!(f.try_backwards().is_some());
    let grads = f.grad().unwrap();
    assert_eq!(floats(grads.get("a").unwrap().data()), &[3., 4.]);
    assert_eq!(floats(grads.get("b").unwrap().data()), &[1., 2.]);
}

#[test]
fn checked_summing_refuses_shapes_that_clash() {
    // two leaves of one name whose gradients have shapes [2] and [3]
    let a = Node::param(vector(&[1., 2.]), "w");
    let s = Node::param(scalar(1.), "s");
    let left = ops::mul(a, s.clone());
    let b = Node::param(vector(&[1., 2., 3.]), "w");
    let right = ops::mul(b, s);
    let both = ops::add(ops::mean(left), ops::mean(right));
    let trace = both.try_backwards().unwrap();
    assert!(try_accum_grads(trace).is_none());
    assert!(both.grad().is_none());
}

#[test]
fn contributions_keep_occurrences_apart() {
    let x1 = Node::param(scalar(7.), "x");
    let x2 = Node::param(scalar(5.), "x");
    let f = ops::mul(x1, x2);
    let trace = f.backwards();
    let list = trace.contributions();
    assert_eq!(list.len(), 2);
    assert_eq!(list[0].0, "x");
    assert_eq!(list[0].1.item().unwrap(), Real(5.));
    assert_eq!(list[1].0, "x");
    assert_eq!(list[1].1.item().unwrap(), Real(7.));
    assert_eq!(accum_grads(trace).get("x").unwrap().item().unwrap(), Real(12.));
}

#[test]
fn operation_names() {
    assert_eq!(BinaryOp::<Real>::op_name(&AddOp), "Add");
    assert_eq!(BinaryOp::<Real>::op_name(&SubOp), "Sub");
    assert_eq!(BinaryOp::<Real>::op_name(&MulOp), "Mul");
    assert_eq!(BinaryOp::<Real>::op_name(&MMulOp), "MatMul");
    assert_eq!(UnaryOp::<Real>::op_name(&SqrOp), "Sqr");
    assert_eq!(UnaryOp::<Real>::op_name(&NegOp), "Neg");
    assert_eq!(ReduceOp::<Real>::op_name(&MeanOp { input_n_elements: 3 }), "Mean");
    let x = Node::param(vector(&[1., -1.]), "x");
    match &*ops::relu(x) {
        Node::UnaryOp(res) => assert_eq!(res.op.op_name(), "Relu"),
        _ => panic!("relu builds a unary node"),
    }
}

#[test]
fn local_gradients_of_each_rule() {
    let up = vector(&[1., 2.]);
    let l = vector(&[3., 4.]);
    let r = vector(&[5., 6.]);
    let (gl, gr) = AddOp.get_grads(&up, (&l, &r));
    assert_eq!(floats(gl.data()), &[1., 2.]);
    assert_eq!(floats(gr.data()), &[1., 2.]);
    assert!(MulOp.accepts(&up, (&l, &r)));
    let (gl, gr) = MulOp.get_grads(&up, (&l, &r));
    assert_eq!(floats(gl.data()), &[5., 12.]);
    assert_eq!(floats(gr.data()), &[3., 8.]);
    let mean = MeanOp { input_n_elements: 4 };
    let x = vector(&[1., 2., 3., 4.]);
    assert!(mean.accepts(&scalar(8.), &x));
    assert_eq!(floats(mean.get_grads(&scalar(8.), &x).data()), &[2., 2., 2., 2.]);
    assert!(!MulOp.accepts(&vector(&[1., 2., 3.]), (&l, &r)));
}
