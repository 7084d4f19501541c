use rand::distributions::{Distribution, Standard};
use rand::Rng;
use rusty_grad::backward::{accum_grads, GradMap};
use rusty_grad::node::Node;
use rusty_grad::ops;
use rusty_grad::scalar::Scalar;
use rusty_grad::tensor::Tensor;
use std::collections::HashMap;
use std::rc::Rc;

#[derive(Clone, Copy, Debug, PartialEq)]
struct Real(f64);

impl Scalar for Real {
    fn of_count(n: usize) -> Self {
        Real(n as f64)
    }

    fn sum(self, rhs: Self) -> Self {
        Real(self.0 + rhs.0)
    }

    fn difference(self, rhs: Self) -> Self {
        Real(self.0 - rhs.0)
    }

    fn product(self, rhs: Self) -> Self {
        Real(self.0 * rhs.0)
    }

    fn quotient(self, rhs: Self) -> Self {
        Real(self.0 / rhs.0)
    }

    fn exceeds(self, rhs: Self) -> bool {
        self.0 > rhs.0
    }

    fn from_count(n: usize) -> Self {
        Real(n as f64)
    }

    fn add(self, rhs: Self) -> Self {
        Real(self.0 + rhs.0)
    }

    fn sub(self, rhs: Self) -> Self {
        Real(self.0 - rhs.0)
    }

    fn mul(self, rhs: Self) -> Self {
        Real(self.0 * rhs.0)
    }

    fn div(self, rhs: Self) -> Self {
        Real(self.0 / rhs.0)
    }

    fn gt(self, rhs: Self) -> bool {
        self.0 > rhs.0
    }
}

fn reals(values: &[f64]) -> Vec<Real> {
    values.iter().map(|v| Real(*v)).collect()
}

fn floats(values: &[Real]) -> Vec<f64> {
    values.iter().map(|v| v.0).collect()
}

impl Distribution<Real> for Standard {
    fn sample<R: Rng + ?Sized>(&self, rng: &mut R) -> Real {
        Real(rng.gen())
    }
}

struct ParamsMap(HashMap<String, Tensor<Real>>);

/// Plain gradient descent: every parameter moves against its gradient.
fn update(lr: f64, mut params: ParamsMap, grads: &GradMap<Real>) -> ParamsMap {
    for (name, param) in params.0.iter_mut() {
        let grad = grads.get(name).unwrap();
        let step = Tensor::mul(grad, &Tensor::from(Real(lr))).unwrap();
        let new = Tensor::sub(param, &step).unwrap();
        *param = new;
    }
    params
}

fn leaf(params: &ParamsMap, name: &'static str) -> Rc<Node<Real>> {
    Rc::new(Node::TensorParam(params.0.get(name).unwrap().clone(), name))
}

#[test]
fn test_train_mlp() {
    fn model(params: &ParamsMap, x: Tensor<Real>) -> Rc<Node<Real>> {
        let input = Rc::new(Node::TensorParam(x, "input"));
        let x1 = ops::relu(ops::add(ops::mmul(input, leaf(params, "w1")), leaf(params, "b1")));
        let x2 = ops::relu(ops::add(ops::mmul(x1, leaf(params, "w2")), leaf(params, "b2")));
        ops::relu(ops::add(ops::mmul(x2, leaf(params, "w3")), leaf(params, "b3")))
    }

    fn forward(params: &ParamsMap, input: Tensor<Real>, label: Tensor<Real>) -> Rc<Node<Real>> {
        let label = Rc::new(Node::TensorParam(label, "label"));
        let out = model(params, input);
        ops::sqr(ops::sub(out.clone(), label.clone()))
    }

    let mut params = ParamsMap(HashMap::from([
        ("w1".to_string(), Tensor::rand(&vec![3, 4])),
        ("b1".to_string(), Tensor::rand(&vec![4])),
        ("w2".to_string(), Tensor::rand(&vec![4, 3])),
        ("b2".to_string(), Tensor::rand(&vec![3])),
        ("w3".to_string(), Tensor::rand(&vec![3, 1])),
        ("b3".to_string(), Tensor::rand(&vec![1])),
    ]));

    let x: Tensor<Real> = Tensor::rand(&vec![1, 3]);
    let y: Tensor<Real> = Tensor::rand(&vec![1, 1]);

    println!("Training model...");
    let mut last = f64::INFINITY;
    for i in 0..5000 {
        let output = forward(&params, x.clone(), y.clone());
        let loss = output.val();
        let grads_map = accum_grads(output.backwards());
        assert_eq!(grads_map.len(), 8);
        params = update(1e-3, params, &grads_map);

        last = loss.item().unwrap().0;
        if i % 100 == 0 {
            println!("loss: {:.4}", last);
        }
        if last < 1e-6 {
            break;
        }
    }
    assert!(last.is_finite());
    assert!(last >= 0.);
}

#[test]
fn test_train_simple() {
    fn model(params: &ParamsMap) -> Rc<Node<Real>> {
        ops::add(leaf(params, "a"), leaf(params, "b"))
    }

    let mut params = ParamsMap(HashMap::from([
        ("a".to_string(), Tensor::rand(&vec![1])),
        ("b".to_string(), Tensor::rand(&vec![1])),
    ]));

    println!("Training model...");
    for i in 0.. {
        let output = model(&params);
        let loss = output.val();
        let grads_map = accum_grads(output.backwards());

        params = update(1e-3, params, &grads_map);

        if i % 10 == 0 {
            println!("loss: {:.4}", loss.item().unwrap().0);
        }

        if loss.item().unwrap().0 < 1e-6 {
            break;
        }
    }
    let total = params.0.get("a").unwrap().item().unwrap().0
        + params.0.get("b").unwrap().item().unwrap().0;
    assert!(total < 1e-6);
}
