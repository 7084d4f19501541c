use rusty_grad::backward::accum_grads;
use rusty_grad::node::Node;
use rusty_grad::ops;
use rusty_grad::scalar::Scalar;
use rusty_grad::tensor::Tensor;

#[test]
fn integer_scalar_arithmetic() {
    assert_eq!(<i64 as Scalar>::from_count(0), 0);
    assert_eq!(<i64 as Scalar>::from_count(41), 41);
    assert_eq!(<i64 as Scalar>::from_count(usize::MAX), i64::MAX);
    assert_eq!(Scalar::add(3i64, 4), 7);
    assert_eq!(Scalar::add(i64::MAX, 1), i64::MIN);
    assert_eq!(Scalar::sub(3i64, 4), -1);
    assert_eq!(Scalar::sub(i64::MIN, 1), i64::MAX);
    assert_eq!(Scalar::mul(-3i64, 4), -12);
    assert_eq!(Scalar::mul(i64::MAX, 2), -2);
    assert_eq!(Scalar::div(7i64, 2), 3);
    assert_eq!(Scalar::div(-7i64, 2), -3);
    assert_eq!(Scalar::div(7i64, 0), 0);
    assert_eq!(Scalar::div(i64::MIN, -1), 0);
    assert!(Scalar::gt(2i64, 1));
    assert!(!Scalar::gt(1i64, 1));
}

#[test]
fn integer_polynomial_value_and_gradients() {
    // f = (a * b + c^2) * c at a = 2, b = 3, c = 5
    let a = Node::param(Tensor::<i64>::from_scalar(2), "a");
    let b = Node::param(Tensor::<i64>::from_scalar(3), "b");
    let c = Node::param(Tensor::<i64>::from_scalar(5), "c");
    let f = ops::mul(ops::add(ops::mul(a, b), ops::sqr(c.clone())), c);
    assert_eq!(f.val().item().unwrap(), 155i64);
    let grads = accum_grads(f.backwards());
    assert_eq!(grads.len(), 3);
    assert_eq!(grads.get("a").unwrap().item().unwrap(), 15i64);
    assert_eq!(grads.get("b").unwrap().item().unwrap(), 10i64);
    assert_eq!(grads.get("c").unwrap().item().unwrap(), 81i64);
}

#[test]
fn integer_sums_do_not_depend_on_order() {
    let grads = |order: [usize; 3]| {
        let values: [&[i64]; 3] = [&[1, 2], &[30, 40], &[500, 600]];
        let leaf = |k: usize| Node::param(Tensor::<i64>::from_sequence(values[order[k]]), "w");
        let f = ops::add(ops::add(leaf(0), leaf(1)), leaf(2));
        accum_grads(f.back_impl(Tensor::<i64>::from_sequence(&[7, 9])))
    };
    let first = grads([0, 1, 2]);
    let second = grads([2, 0, 1]);
    assert_eq!(first.get("w").unwrap().data(), &vec![21i64, 27]);
    assert_eq!(second.get("w").unwrap().data(), &vec![21i64, 27]);
}
