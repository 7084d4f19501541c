//! The differentiable primitives: for each a forward combinator that builds
//! a graph node and a rule for its local gradients.

use vstd::prelude::*;
use std::rc::Rc;
use crate::index::{joint_shape, shapes_compatible};
use crate::node::{BinaryOp, Graph, Node, ReduceOp, UnaryOp};
use crate::scalar::Scalar;
use crate::shape::{broadcast_shape, compatible, lemma_broadcast_same};
use crate::tensor::Tensor;
use crate::view::TensorView;

verus! {

/// The rank-0 tensor that holds minus one: zero less one.
pub open spec fn minus_one<T: Scalar>() -> TensorView<T> {
    TensorView::dense(Seq::empty(), seq![T::of_count(0).difference(T::of_count(1))])
}

/// The rank-0 tensor that holds the scalar for the count `n`.
pub open spec fn count<T: Scalar>(n: usize) -> TensorView<T> {
    TensorView::dense(Seq::empty(), seq![T::of_count(n)])
}

/// Matrix multiplication.
#[derive(Clone, Copy, Debug)]
pub struct MMulOp;

/// Elementwise addition.
#[derive(Clone, Copy, Debug)]
pub struct AddOp;

/// Elementwise subtraction.
#[derive(Clone, Copy, Debug)]
pub struct SubOp;

/// Elementwise multiplication.
#[derive(Clone, Copy, Debug)]
pub struct MulOp;

/// Elementwise square.
#[derive(Clone, Copy, Debug)]
pub struct SqrOp;

/// Elementwise negation.
#[derive(Clone, Copy, Debug)]
pub struct NegOp;

/// The mean of all elements. It keeps the number of elements of its operand.
#[derive(Clone, Copy, Debug)]
pub struct MeanOp {
    pub input_n_elements: usize,
}

/// The rectifier. It keeps the mask of the elements of its operand that
/// exceeded zero.
pub struct ReluOp<T> {
    pub input_gt_zero_mask: Tensor<T>,
}

/// The closed set of operations with two operands.
#[derive(Clone, Copy, Debug)]
pub enum BinaryKind {
    Add(AddOp),
    Sub(SubOp),
    Mul(MulOp),
    MatMul(MMulOp),
}

/// The closed set of operations with one operand.
pub enum UnaryKind<T> {
    Sqr(SqrOp),
    Neg(NegOp),
    Relu(ReluOp<T>),
}

/// The closed set of reductions.
#[derive(Clone, Copy, Debug)]
pub enum ReduceKind {
    Mean(MeanOp),
}

/// The mathematical content of an operation with one operand.
pub enum UnaryRule<T> {
    Sqr,
    Neg,
    Relu { mask: TensorView<T> },
}

impl<T> View for UnaryKind<T> {
    type V = UnaryRule<T>;

    open spec fn view(&self) -> UnaryRule<T> {
        match self {
            UnaryKind::Sqr(_) => UnaryRule::Sqr,
            UnaryKind::Neg(_) => UnaryRule::Neg,
            UnaryKind::Relu(op) => UnaryRule::Relu { mask: op.input_gt_zero_mask@ },
        }
    }
}

impl<T: Scalar> BinaryOp<T> for AddOp {
    open spec fn defined(&self, upstream: TensorView<T>, l: TensorView<T>, r: TensorView<T>) -> bool {
        true
    }

    /// Both operands receive the upstream gradient unchanged.
    open spec fn grads(&self, upstream: TensorView<T>, l: TensorView<T>, r: TensorView<T>) -> (
        TensorView<T>,
        TensorView<T>,
    ) {
        (upstream, upstream)
    }

    fn accepts(&self, upstream: &Tensor<T>, args: (&Tensor<T>, &Tensor<T>)) -> (ok: bool) {
        true
    }

    fn get_grads(&self, upstream: &Tensor<T>, args: (&Tensor<T>, &Tensor<T>)) -> (g: (
        Tensor<T>,
        Tensor<T>,
    ))
        ensures
            g.0@ == upstream@,
            g.1@ == upstream@,
    {
        (upstream.clone(), upstream.clone())
    }

    open spec fn name(&self) -> Seq<char> {
        "Add"@
    }

    fn op_name(&self) -> (name: &'static str) {
        "Add"
    }
}

impl<T: Scalar> BinaryOp<T> for SubOp {
    open spec fn defined(&self, upstream: TensorView<T>, l: TensorView<T>, r: TensorView<T>) -> bool {
        compatible(upstream.shape, Seq::empty())
    }

    /// The left operand receives the upstream gradient, the right one its
    /// product with minus one.
    open spec fn grads(&self, upstream: TensorView<T>, l: TensorView<T>, r: TensorView<T>) -> (
        TensorView<T>,
        TensorView<T>,
    ) {
        (upstream, upstream.times(minus_one()))
    }

    fn accepts(&self, upstream: &Tensor<T>, args: (&Tensor<T>, &Tensor<T>)) -> (ok: bool) {
        let scalar: Vec<usize> = Vec::new();
        shapes_compatible(upstream.shape(), &scalar)
    }

    fn get_grads(&self, upstream: &Tensor<T>, args: (&Tensor<T>, &Tensor<T>)) -> (g: (
        Tensor<T>,
        Tensor<T>,
    )) {
        let neg = Tensor::from_scalar(T::from_count(0).sub(T::from_count(1)));
        match Tensor::mul(upstream, &neg) {
            Ok(right) => (upstream.clone(), right),
            Err(_) => vstd::pervasive::unreached(),
        }
    }

    open spec fn name(&self) -> Seq<char> {
        "Sub"@
    }

    fn op_name(&self) -> (name: &'static str) {
        "Sub"
    }
}

impl<T: Scalar> BinaryOp<T> for MulOp {
    open spec fn defined(&self, upstream: TensorView<T>, l: TensorView<T>, r: TensorView<T>) -> bool {
        compatible(r.shape, upstream.shape) && compatible(l.shape, upstream.shape)
    }

    /// The product rule: each operand receives the other operand's value
    /// times the upstream gradient.
    open spec fn grads(&self, upstream: TensorView<T>, l: TensorView<T>, r: TensorView<T>) -> (
        TensorView<T>,
        TensorView<T>,
    ) {
        (r.times(upstream), l.times(upstream))
    }

    fn accepts(&self, upstream: &Tensor<T>, args: (&Tensor<T>, &Tensor<T>)) -> (ok: bool) {
        Tensor::compatible(args.1, upstream) && Tensor::compatible(args.0, upstream)
    }

    fn get_grads(&self, upstream: &Tensor<T>, args: (&Tensor<T>, &Tensor<T>)) -> (g: (
        Tensor<T>,
        Tensor<T>,
    )) {
        let left = match Tensor::mul(args.1, upstream) {
            Ok(t) => t,
            Err(_) => vstd::pervasive::unreached(),
        };
        let right = match Tensor::mul(args.0, upstream) {
            Ok(t) => t,
            Err(_) => vstd::pervasive::unreached(),
        };
        (left, right)
    }

    open spec fn name(&self) -> Seq<char> {
        "Mul"@
    }

    fn op_name(&self) -> (name: &'static str) {
        "Mul"
    }
}

impl<T: Scalar> BinaryOp<T> for MMulOp {
    open spec fn defined(&self, upstream: TensorView<T>, l: TensorView<T>, r: TensorView<T>) -> bool {
        &&& l.shape.len() == 2
        &&& r.shape.len() == 2
        &&& upstream.matmul_defined(r.transposed(0, 1))
        &&& l.transposed(0, 1).matmul_defined(upstream)
    }

    /// The left operand receives the upstream gradient times the transposed
    /// right operand, the right one the transposed left operand times the
    /// upstream gradient.
    open spec fn grads(&self, upstream: TensorView<T>, l: TensorView<T>, r: TensorView<T>) -> (
        TensorView<T>,
        TensorView<T>,
    ) {
        (upstream.matmul(r.transposed(0, 1)), l.transposed(0, 1).matmul(upstream))
    }

    fn accepts(&self, upstream: &Tensor<T>, args: (&Tensor<T>, &Tensor<T>)) -> (ok: bool) {
        if args.0.shape().len() != 2 || args.1.shape().len() != 2 {
            return false;
        }
        let r_t = args.1.transpose(0, 1);
        let l_t = args.0.transpose(0, 1);
        upstream.can_matmul(&r_t) && l_t.can_matmul(upstream)
    }

    fn get_grads(&self, upstream: &Tensor<T>, args: (&Tensor<T>, &Tensor<T>)) -> (g: (
        Tensor<T>,
        Tensor<T>,
    )) {
        let r_t = args.1.transpose(0, 1);
        let l_t = args.0.transpose(0, 1);
        let left = Tensor::mmul(upstream, &r_t);
        let right = Tensor::mmul(&l_t, upstream);
        (left, right)
    }

    open spec fn name(&self) -> Seq<char> {
        "MatMul"@
    }

    fn op_name(&self) -> (name: &'static str) {
        "MatMul"
    }
}

impl<T: Scalar> BinaryOp<T> for BinaryKind {
    open spec fn defined(&self, upstream: TensorView<T>, l: TensorView<T>, r: TensorView<T>) -> bool {
        match self {
            BinaryKind::Add(op) => op.defined(upstream, l, r),
            BinaryKind::Sub(op) => op.defined(upstream, l, r),
            BinaryKind::Mul(op) => op.defined(upstream, l, r),
            BinaryKind::MatMul(op) => op.defined(upstream, l, r),
        }
    }

    open spec fn grads(&self, upstream: TensorView<T>, l: TensorView<T>, r: TensorView<T>) -> (
        TensorView<T>,
        TensorView<T>,
    ) {
        match self {
            BinaryKind::Add(op) => op.grads(upstream, l, r),
            BinaryKind::Sub(op) => op.grads(upstream, l, r),
            BinaryKind::Mul(op) => op.grads(upstream, l, r),
            BinaryKind::MatMul(op) => op.grads(upstream, l, r),
        }
    }

    fn accepts(&self, upstream: &Tensor<T>, args: (&Tensor<T>, &Tensor<T>)) -> (ok: bool) {
        match self {
            BinaryKind::Add(op) => op.accepts(upstream, args),
            BinaryKind::Sub(op) => op.accepts(upstream, args),
            BinaryKind::Mul(op) => op.accepts(upstream, args),
            BinaryKind::MatMul(op) => op.accepts(upstream, args),
        }
    }

    fn get_grads(&self, upstream: &Tensor<T>, args: (&Tensor<T>, &Tensor<T>)) -> (g: (
        Tensor<T>,
        Tensor<T>,
    )) {
        match self {
            BinaryKind::Add(op) => op.get_grads(upstream, args),
            BinaryKind::Sub(op) => op.get_grads(upstream, args),
            BinaryKind::Mul(op) => op.get_grads(upstream, args),
            BinaryKind::MatMul(op) => op.get_grads(upstream, args),
        }
    }

    open spec fn name(&self) -> Seq<char> {
        match self {
            BinaryKind::Add(op) => BinaryOp::<T>::name(op),
            BinaryKind::Sub(op) => BinaryOp::<T>::name(op),
            BinaryKind::Mul(op) => BinaryOp::<T>::name(op),
            BinaryKind::MatMul(op) => BinaryOp::<T>::name(op),
        }
    }

    fn op_name(&self) -> (name: &'static str) {
        match self {
            BinaryKind::Add(op) => BinaryOp::<T>::op_name(op),
            BinaryKind::Sub(op) => BinaryOp::<T>::op_name(op),
            BinaryKind::Mul(op) => BinaryOp::<T>::op_name(op),
            BinaryKind::MatMul(op) => BinaryOp::<T>::op_name(op),
        }
    }
}

impl BinaryKind {
    /// The operands can be combined.
    pub open spec fn forward_defined<T: Scalar>(self, l: TensorView<T>, r: TensorView<T>) -> bool {
        match self {
            BinaryKind::MatMul(_) => l.matmul_defined(r),
            _ => compatible(l.shape, r.shape),
        }
    }

    /// The value of the operation on two operand values.
    pub open spec fn forward_value<T: Scalar>(self, l: TensorView<T>, r: TensorView<T>) -> TensorView<
        T,
    > {
        match self {
            BinaryKind::Add(_) => l.plus(r),
            BinaryKind::Sub(_) => l.minus(r),
            BinaryKind::Mul(_) => l.times(r),
            BinaryKind::MatMul(_) => l.matmul(r),
        }
    }

    /// Computes the value of the operation on two operand values.
    pub fn forward<T: Scalar>(&self, left: &Tensor<T>, right: &Tensor<T>) -> (value: Tensor<T>)
        requires
            self.forward_defined(left@, right@),
        ensures
            value@ == self.forward_value(left@, right@),
    {
        let res = match self {
            BinaryKind::Add(_) => Tensor::add(left, right),
            BinaryKind::Sub(_) => Tensor::sub(left, right),
            BinaryKind::Mul(_) => Tensor::mul(left, right),
            BinaryKind::MatMul(_) => {
                return Tensor::mmul(left, right);
            },
        };
        match res {
            Ok(value) => value,
            Err(_) => vstd::pervasive::unreached(),
        }
    }
}

impl<T: Scalar> UnaryRule<T> {
    /// The local gradient can be computed for these values.
    pub open spec fn defined(self, upstream: TensorView<T>, arg: TensorView<T>) -> bool {
        match self {
            UnaryRule::Sqr => {
                &&& compatible(Seq::empty(), arg.shape)
                &&& compatible(broadcast_shape(Seq::empty(), arg.shape), upstream.shape)
            },
            UnaryRule::Neg => compatible(upstream.shape, Seq::empty()),
            UnaryRule::Relu { mask } => compatible(mask.shape, upstream.shape),
        }
    }

    /// The gradient handed to the operand: for the square, two times the
    /// operand times the upstream gradient; for the negation, the upstream
    /// gradient times minus one; for the rectifier, the upstream gradient
    /// times the mask.
    pub open spec fn grad(self, upstream: TensorView<T>, arg: TensorView<T>) -> TensorView<T> {
        match self {
            UnaryRule::Sqr => count::<T>(2).times(arg).times(upstream),
            UnaryRule::Neg => upstream.times(minus_one()),
            UnaryRule::Relu { mask } => mask.times(upstream),
        }
    }

    /// The operation can be applied to the operand.
    pub open spec fn forward_defined(self, arg: TensorView<T>) -> bool {
        match self {
            UnaryRule::Sqr => compatible(arg.shape, arg.shape),
            UnaryRule::Neg => compatible(arg.shape, Seq::empty()),
            UnaryRule::Relu { mask } => true,
        }
    }

    /// The value of the operation on an operand value.
    pub open spec fn forward_value(self, arg: TensorView<T>) -> TensorView<T> {
        match self {
            UnaryRule::Sqr => arg.times(arg),
            UnaryRule::Neg => arg.times(minus_one()),
            UnaryRule::Relu { mask } => arg.rectified(),
        }
    }

    /// What the operation keeps of its operand agrees with the operand.
    pub open spec fn captured_from(self, arg: TensorView<T>) -> bool {
        match self {
            UnaryRule::Relu { mask } => mask == arg.above(T::of_count(0)),
            _ => true,
        }
    }
}

impl<T: Scalar> UnaryOp<T> for SqrOp {
    open spec fn defined(&self, upstream: TensorView<T>, arg: TensorView<T>) -> bool {
        UnaryRule::<T>::Sqr.defined(upstream, arg)
    }

    open spec fn grad(&self, upstream: TensorView<T>, arg: TensorView<T>) -> TensorView<T> {
        UnaryRule::<T>::Sqr.grad(upstream, arg)
    }

    fn accepts(&self, upstream: &Tensor<T>, arg: &Tensor<T>) -> (ok: bool) {
        let scalar: Vec<usize> = Vec::new();
        if !shapes_compatible(&scalar, arg.shape()) {
            return false;
        }
        let doubled = joint_shape(&scalar, arg.shape());
        shapes_compatible(&doubled, upstream.shape())
    }

    fn get_grads(&self, upstream: &Tensor<T>, arg: &Tensor<T>) -> (g: Tensor<T>) {
        let two = Tensor::from_scalar(T::from_count(2));
        let doubled = match Tensor::mul(&two, arg) {
            Ok(t) => t,
            Err(_) => vstd::pervasive::unreached(),
        };
        match Tensor::mul(&doubled, upstream) {
            Ok(t) => t,
            Err(_) => vstd::pervasive::unreached(),
        }
    }

    open spec fn name(&self) -> Seq<char> {
        "Sqr"@
    }

    fn op_name(&self) -> (name: &'static str) {
        "Sqr"
    }
}

impl<T: Scalar> UnaryOp<T> for NegOp {
    open spec fn defined(&self, upstream: TensorView<T>, arg: TensorView<T>) -> bool {
        UnaryRule::<T>::Neg.defined(upstream, arg)
    }

    open spec fn grad(&self, upstream: TensorView<T>, arg: TensorView<T>) -> TensorView<T> {
        UnaryRule::<T>::Neg.grad(upstream, arg)
    }

    fn accepts(&self, upstream: &Tensor<T>, arg: &Tensor<T>) -> (ok: bool) {
        let scalar: Vec<usize> = Vec::new();
        shapes_compatible(upstream.shape(), &scalar)
    }

    fn get_grads(&self, upstream: &Tensor<T>, arg: &Tensor<T>) -> (g: Tensor<T>) {
        let neg = Tensor::from_scalar(T::from_count(0).sub(T::from_count(1)));
        match Tensor::mul(upstream, &neg) {
            Ok(t) => t,
            Err(_) => vstd::pervasive::unreached(),
        }
    }

    open spec fn name(&self) -> Seq<char> {
        "Neg"@
    }

    fn op_name(&self) -> (name: &'static str) {
        "Neg"
    }
}

impl<T: Scalar> UnaryOp<T> for ReluOp<T> {
    open spec fn defined(&self, upstream: TensorView<T>, arg: TensorView<T>) -> bool {
        (UnaryRule::Relu { mask: self.input_gt_zero_mask@ }).defined(upstream, arg)
    }

    open spec fn grad(&self, upstream: TensorView<T>, arg: TensorView<T>) -> TensorView<T> {
        (UnaryRule::Relu { mask: self.input_gt_zero_mask@ }).grad(upstream, arg)
    }

    fn accepts(&self, upstream: &Tensor<T>, arg: &Tensor<T>) -> (ok: bool) {
        Tensor::compatible(&self.input_gt_zero_mask, upstream)
    }

    fn get_grads(&self, upstream: &Tensor<T>, arg: &Tensor<T>) -> (g: Tensor<T>) {
        match Tensor::mul(&self.input_gt_zero_mask, upstream) {
            Ok(t) => t,
            Err(_) => vstd::pervasive::unreached(),
        }
    }

    open spec fn name(&self) -> Seq<char> {
        "Relu"@
    }

    fn op_name(&self) -> (name: &'static str) {
        "Relu"
    }
}

impl<T: Scalar> UnaryOp<T> for UnaryKind<T> {
    open spec fn defined(&self, upstream: TensorView<T>, arg: TensorView<T>) -> bool {
        self@.defined(upstream, arg)
    }

    open spec fn grad(&self, upstream: TensorView<T>, arg: TensorView<T>) -> TensorView<T> {
        self@.grad(upstream, arg)
    }

    fn accepts(&self, upstream: &Tensor<T>, arg: &Tensor<T>) -> (ok: bool) {
        match self {
            UnaryKind::Sqr(op) => op.accepts(upstream, arg),
            UnaryKind::Neg(op) => op.accepts(upstream, arg),
            UnaryKind::Relu(op) => op.accepts(upstream, arg),
        }
    }

    fn get_grads(&self, upstream: &Tensor<T>, arg: &Tensor<T>) -> (g: Tensor<T>) {
        match self {
            UnaryKind::Sqr(op) => op.get_grads(upstream, arg),
            UnaryKind::Neg(op) => op.get_grads(upstream, arg),
            UnaryKind::Relu(op) => op.get_grads(upstream, arg),
        }
    }

    open spec fn name(&self) -> Seq<char> {
        match self {
            UnaryKind::Sqr(op) => UnaryOp::<T>::name(op),
            UnaryKind::Neg(op) => UnaryOp::<T>::name(op),
            UnaryKind::Relu(op) => op.name(),
        }
    }

    fn op_name(&self) -> (name: &'static str) {
        match self {
            UnaryKind::Sqr(op) => UnaryOp::<T>::op_name(op),
            UnaryKind::Neg(op) => UnaryOp::<T>::op_name(op),
            UnaryKind::Relu(op) => op.op_name(),
        }
    }
}

impl<T: Scalar> ReduceOp<T> for MeanOp {
    open spec fn defined(&self, upstream: TensorView<T>, arg: TensorView<T>) -> bool {
        &&& compatible(upstream.shape, Seq::empty())
        &&& compatible(broadcast_shape(upstream.shape, Seq::empty()), arg.shape)
    }

    /// The upstream gradient divided by the number of elements, spread over
    /// the shape of the operand: every element receives an equal share.
    open spec fn grad(&self, upstream: TensorView<T>, arg: TensorView<T>) -> TensorView<T> {
        upstream.over(count(self.input_n_elements)).times(
            TensorView::filled(arg.shape, T::of_count(1)),
        )
    }

    fn accepts(&self, upstream: &Tensor<T>, arg: &Tensor<T>) -> (ok: bool) {
        let scalar: Vec<usize> = Vec::new();
        if !shapes_compatible(upstream.shape(), &scalar) {
            return false;
        }
        let share = joint_shape(upstream.shape(), &scalar);
        shapes_compatible(&share, arg.shape())
    }

    fn get_grads(&self, upstream: &Tensor<T>, arg: &Tensor<T>) -> (g: Tensor<T>) {
        let n = Tensor::from_scalar(T::from_count(self.input_n_elements));
        let share = match Tensor::div(upstream, &n) {
            Ok(t) => t,
            Err(_) => vstd::pervasive::unreached(),
        };
        let ones = Tensor::ones_like(arg);
        match Tensor::mul(&share, &ones) {
            Ok(t) => t,
            Err(_) => vstd::pervasive::unreached(),
        }
    }

    open spec fn name(&self) -> Seq<char> {
        "Mean"@
    }

    fn op_name(&self) -> (name: &'static str) {
        "Mean"
    }
}

impl<T: Scalar> ReduceOp<T> for ReduceKind {
    open spec fn defined(&self, upstream: TensorView<T>, arg: TensorView<T>) -> bool {
        match self {
            ReduceKind::Mean(op) => op.defined(upstream, arg),
        }
    }

    open spec fn grad(&self, upstream: TensorView<T>, arg: TensorView<T>) -> TensorView<T> {
        match self {
            ReduceKind::Mean(op) => op.grad(upstream, arg),
        }
    }

    fn accepts(&self, upstream: &Tensor<T>, arg: &Tensor<T>) -> (ok: bool) {
        match self {
            ReduceKind::Mean(op) => op.accepts(upstream, arg),
        }
    }

    fn get_grads(&self, upstream: &Tensor<T>, arg: &Tensor<T>) -> (g: Tensor<T>) {
        match self {
            ReduceKind::Mean(op) => op.get_grads(upstream, arg),
        }
    }

    open spec fn name(&self) -> Seq<char> {
        match self {
            ReduceKind::Mean(op) => ReduceOp::<T>::name(op),
        }
    }

    fn op_name(&self) -> (name: &'static str) {
        match self {
            ReduceKind::Mean(op) => ReduceOp::<T>::op_name(op),
        }
    }
}

impl ReduceKind {
    /// The value of the reduction of an operand value.
    pub open spec fn forward_value<T: Scalar>(self, arg: TensorView<T>) -> TensorView<T> {
        match self {
            ReduceKind::Mean(_) => arg.averaged(),
        }
    }

    /// What the reduction keeps of its operand agrees with the operand.
    pub open spec fn captured_from<T: Scalar>(self, arg: TensorView<T>) -> bool {
        match self {
            ReduceKind::Mean(op) => op.input_n_elements == arg.data.len(),
        }
    }
}

/// The node for the elementwise sum of two nodes.
pub fn add<T: Scalar>(l: Rc<Node<T>>, r: Rc<Node<T>>) -> (node: Rc<Node<T>>)
    requires
        compatible(l@.value().shape, r@.value().shape),
    ensures
        node@ == (Graph::Binary {
            rule: BinaryKind::Add(AddOp),
            left: Box::new(l@),
            right: Box::new(r@),
            value: l@.value().plus(r@.value()),
        }),
        l@.evaluated() && r@.evaluated() ==> node@.evaluated(),
{
    let op = BinaryKind::Add(AddOp);
    let value = op.forward(l.value(), r.value());
    Node::new_bin_res(op, (l, r), value)
}

/// The node for the elementwise difference of two nodes.
pub fn sub<T: Scalar>(l: Rc<Node<T>>, r: Rc<Node<T>>) -> (node: Rc<Node<T>>)
    requires
        compatible(l@.value().shape, r@.value().shape),
    ensures
        node@ == (Graph::Binary {
            rule: BinaryKind::Sub(SubOp),
            left: Box::new(l@),
            right: Box::new(r@),
            value: l@.value().minus(r@.value()),
        }),
        l@.evaluated() && r@.evaluated() ==> node@.evaluated(),
{
    let op = BinaryKind::Sub(SubOp);
    let value = op.forward(l.value(), r.value());
    Node::new_bin_res(op, (l, r), value)
}

/// The node for the elementwise product of two nodes.
pub fn mul<T: Scalar>(l: Rc<Node<T>>, r: Rc<Node<T>>) -> (node: Rc<Node<T>>)
    requires
        compatible(l@.value().shape, r@.value().shape),
    ensures
        node@ == (Graph::Binary {
            rule: BinaryKind::Mul(MulOp),
            left: Box::new(l@),
            right: Box::new(r@),
            value: l@.value().times(r@.value()),
        }),
        l@.evaluated() && r@.evaluated() ==> node@.evaluated(),
{
    let op = BinaryKind::Mul(MulOp);
    let value = op.forward(l.value(), r.value());
    Node::new_bin_res(op, (l, r), value)
}

/// The node for the matrix product of two nodes.
pub fn mmul<T: Scalar>(l: Rc<Node<T>>, r: Rc<Node<T>>) -> (node: Rc<Node<T>>)
    requires
        l@.value().matmul_defined(r@.value()),
    ensures
        node@ == (Graph::Binary {
            rule: BinaryKind::MatMul(MMulOp),
            left: Box::new(l@),
            right: Box::new(r@),
            value: l@.value().matmul(r@.value()),
        }),
        l@.evaluated() && r@.evaluated() ==> node@.evaluated(),
{
    let op = BinaryKind::MatMul(MMulOp);
    let value = op.forward(l.value(), r.value());
    Node::new_bin_res(op, (l, r), value)
}

/// The node for the elementwise square of a node.
pub fn sqr<T: Scalar>(x: Rc<Node<T>>) -> (node: Rc<Node<T>>)
    ensures
        node@ == (Graph::Unary {
            rule: UnaryRule::Sqr,
            arg: Box::new(x@),
            value: x@.value().times(x@.value()),
        }),
        x@.evaluated() ==> node@.evaluated(),
{
    let operand = x.value();
    proof {
        use_type_invariant(operand);
        lemma_broadcast_same(operand@.shape);
    }
    let value = match Tensor::mul(operand, operand) {
        Ok(t) => t,
        Err(_) => vstd::pervasive::unreached(),
    };
    Node::new_unr_res(UnaryKind::Sqr(SqrOp), x, value)
}

/// The node for the elementwise negation of a node.
pub fn neg<T: Scalar>(x: Rc<Node<T>>) -> (node: Rc<Node<T>>)
    requires
        compatible(x@.value().shape, Seq::empty()),
    ensures
        node@ == (Graph::Unary {
            rule: UnaryRule::Neg,
            arg: Box::new(x@),
            value: x@.value().times(minus_one()),
        }),
        x@.evaluated() ==> node@.evaluated(),
{
    let minus = Tensor::from_scalar(T::from_count(0).sub(T::from_count(1)));
    let value = match Tensor::mul(x.value(), &minus) {
        Ok(t) => t,
        Err(_) => vstd::pervasive::unreached(),
    };
    Node::new_unr_res(UnaryKind::Neg(NegOp), x, value)
}

/// The node for the rectifier of a node. The mask of the elements that
/// exceed zero is taken here and kept for the gradient.
pub fn relu<T: Scalar>(x: Rc<Node<T>>) -> (node: Rc<Node<T>>)
    ensures
        node@ == (Graph::Unary {
            rule: UnaryRule::Relu { mask: x@.value().above(T::of_count(0)) },
            arg: Box::new(x@),
            value: x@.value().rectified(),
        }),
        x@.evaluated() ==> node@.evaluated(),
{
    let mask = Tensor::gt(x.value(), T::from_count(0));
    let value = Tensor::relu(x.value());
    Node::new_unr_res(UnaryKind::Relu(ReluOp { input_gt_zero_mask: mask }), x, value)
}

/// The node for the mean of all elements of a node. The number of elements
/// is taken here and kept for the gradient.
pub fn mean<T: Scalar>(x: Rc<Node<T>>) -> (node: Rc<Node<T>>)
    ensures
        node@ == (Graph::Reduce {
            rule: ReduceKind::Mean(MeanOp { input_n_elements: x@.value().data.len() as usize }),
            arg: Box::new(x@),
            value: x@.value().averaged(),
        }),
        x@.evaluated() ==> node@.evaluated(),
{
    let n = x.value().n_elements();
    let value = Tensor::mean(x.value());
    Node::new_red_res(ReduceKind::Mean(MeanOp { input_n_elements: n }), x, value)
}

} // verus!
