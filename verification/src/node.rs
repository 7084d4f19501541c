//! The computation graph: named parameter leaves and the cached results of
//! operations applied to shared operand nodes.

use vstd::prelude::*;
use std::rc::Rc;
use crate::ops::{BinaryKind, ReduceKind, UnaryKind, UnaryRule};
use crate::scalar::Scalar;
use crate::tensor::Tensor;
use crate::view::TensorView;

verus! {

/// The gradient rule of an operation with two operands.
pub trait BinaryOp<T: Scalar> {
    /// The local gradients can be computed for these values.
    spec fn defined(&self, upstream: TensorView<T>, l: TensorView<T>, r: TensorView<T>) -> bool;

    /// The gradients handed to the left and to the right operand.
    spec fn grads(&self, upstream: TensorView<T>, l: TensorView<T>, r: TensorView<T>) -> (
        TensorView<T>,
        TensorView<T>,
    );

    /// Whether the local gradients can be computed for these values.
    fn accepts(&self, upstream: &Tensor<T>, args: (&Tensor<T>, &Tensor<T>)) -> (ok: bool)
        ensures
            ok == self.defined(upstream@, args.0@, args.1@),
    ;

    fn get_grads(&self, upstream: &Tensor<T>, args: (&Tensor<T>, &Tensor<T>)) -> (g: (
        Tensor<T>,
        Tensor<T>,
    ))
        requires
            self.defined(upstream@, args.0@, args.1@),
        ensures
            (g.0@, g.1@) == self.grads(upstream@, args.0@, args.1@),
    ;

    /// The short name of the operation.
    spec fn name(&self) -> Seq<char>;

    fn op_name(&self) -> (name: &'static str)
        ensures
            name@ == self.name(),
    ;
}

/// The gradient rule of an operation with one operand.
pub trait UnaryOp<T: Scalar> {
    /// The local gradient can be computed for these values.
    spec fn defined(&self, upstream: TensorView<T>, arg: TensorView<T>) -> bool;

    /// The gradient handed to the operand.
    spec fn grad(&self, upstream: TensorView<T>, arg: TensorView<T>) -> TensorView<T>;

    /// Whether the local gradient can be computed for these values.
    fn accepts(&self, upstream: &Tensor<T>, arg: &Tensor<T>) -> (ok: bool)
        ensures
            ok == self.defined(upstream@, arg@),
    ;

    fn get_grads(&self, upstream: &Tensor<T>, arg: &Tensor<T>) -> (g: Tensor<T>)
        requires
            self.defined(upstream@, arg@),
        ensures
            g@ == self.grad(upstream@, arg@),
    ;

    /// The short name of the operation.
    spec fn name(&self) -> Seq<char>;

    fn op_name(&self) -> (name: &'static str)
        ensures
            name@ == self.name(),
    ;
}

/// The gradient rule of an operation that reduces its operand to one value.
pub trait ReduceOp<T: Scalar> {
    /// The local gradient can be computed for these values.
    spec fn defined(&self, upstream: TensorView<T>, arg: TensorView<T>) -> bool;

    /// The gradient handed to the operand.
    spec fn grad(&self, upstream: TensorView<T>, arg: TensorView<T>) -> TensorView<T>;

    /// Whether the local gradient can be computed for these values.
    fn accepts(&self, upstream: &Tensor<T>, arg: &Tensor<T>) -> (ok: bool)
        ensures
            ok == self.defined(upstream@, arg@),
    ;

    fn get_grads(&self, upstream: &Tensor<T>, arg: &Tensor<T>) -> (g: Tensor<T>)
        requires
            self.defined(upstream@, arg@),
        ensures
            g@ == self.grad(upstream@, arg@),
    ;

    /// The short name of the operation.
    spec fn name(&self) -> Seq<char>;

    fn op_name(&self) -> (name: &'static str)
        ensures
            name@ == self.name(),
    ;
}

/// The result of an operation on two operands.
pub struct BinaryOpResult<T> {
    pub op: BinaryKind,
    pub args: (Rc<Node<T>>, Rc<Node<T>>),
    pub value: Tensor<T>,
}

/// The result of an operation on one operand.
pub struct UnaryOpResult<T> {
    pub op: UnaryKind<T>,
    pub arg: Rc<Node<T>>,
    pub value: Tensor<T>,
}

/// The result of a reduction of one operand.
pub struct ReduceOpResult<T> {
    pub op: ReduceKind,
    pub arg: Rc<Node<T>>,
    pub value: Tensor<T>,
}

/// A vertex of the computation graph. Operands are shared, not copied: the
/// same node may feed several results.
pub enum Node<T> {
    BinaryOp(BinaryOpResult<T>),
    UnaryOp(UnaryOpResult<T>),
    ReduceOp(ReduceOpResult<T>),
    /// A named leaf that holds a tensor.
    TensorParam(Tensor<T>, &'static str),
}

/// The mathematical content of a node: the expression it stands for, with
/// the value cached at every vertex.
#[allow(inconsistent_fields)]
pub enum Graph<T> {
    Param { value: TensorView<T>, name: Seq<char> },
    Binary { rule: BinaryKind, left: Box<Graph<T>>, right: Box<Graph<T>>, value: TensorView<T> },
    Unary { rule: UnaryRule<T>, arg: Box<Graph<T>>, value: TensorView<T> },
    Reduce { rule: ReduceKind, arg: Box<Graph<T>>, value: TensorView<T> },
}

impl<T> Graph<T> {
    /// The value cached at the root.
    pub open spec fn value(self) -> TensorView<T> {
        match self {
            Graph::Param { value, .. } => value,
            Graph::Binary { value, .. } => value,
            Graph::Unary { value, .. } => value,
            Graph::Reduce { value, .. } => value,
        }
    }
}

impl<T> Node<T> {
    /// The expression that the node stands for.
    pub open spec fn graph(self) -> Graph<T>
        decreases self,
    {
        match self {
            Node::TensorParam(tensor, name) => Graph::Param { value: tensor@, name: name@ },
            Node::BinaryOp(res) => Graph::Binary {
                rule: res.op,
                left: Box::new((*res.args.0).graph()),
                right: Box::new((*res.args.1).graph()),
                value: res.value@,
            },
            Node::UnaryOp(res) => Graph::Unary {
                rule: res.op@,
                arg: Box::new((*res.arg).graph()),
                value: res.value@,
            },
            Node::ReduceOp(res) => Graph::Reduce {
                rule: res.op,
                arg: Box::new((*res.arg).graph()),
                value: res.value@,
            },
        }
    }
}

impl<T> View for Node<T> {
    type V = Graph<T>;

    open spec fn view(&self) -> Graph<T> {
        self.graph()
    }
}

impl<T: Scalar> Node<T> {
    /// The node for the result `value` of the unary operation `op` on `arg`.
    pub fn new_unr_res(op: UnaryKind<T>, arg: Rc<Node<T>>, value: Tensor<T>) -> (node: Rc<Node<T>>)
        ensures
            node@ == (Graph::Unary { rule: op@, arg: Box::new(arg@), value: value@ }),
    {
        Rc::new(Node::UnaryOp(UnaryOpResult { op, arg, value }))
    }

    /// The node for the result `value` of the binary operation `op` on `args`.
    pub fn new_bin_res(op: BinaryKind, args: (Rc<Node<T>>, Rc<Node<T>>), value: Tensor<T>) -> (node:
        Rc<Node<T>>)
        ensures
            node@ == (Graph::Binary {
                rule: op,
                left: Box::new(args.0@),
                right: Box::new(args.1@),
                value: value@,
            }),
    {
        Rc::new(Node::BinaryOp(BinaryOpResult { op, args, value }))
    }

    /// The node for the result `value` of the reduction `op` of `arg`.
    pub fn new_red_res(op: ReduceKind, arg: Rc<Node<T>>, value: Tensor<T>) -> (node: Rc<Node<T>>)
        ensures
            node@ == (Graph::Reduce { rule: op, arg: Box::new(arg@), value: value@ }),
    {
        Rc::new(Node::ReduceOp(ReduceOpResult { op, arg, value }))
    }

    /// The named leaf that holds `value`.
    pub fn param(value: Tensor<T>, name: &'static str) -> (node: Rc<Node<T>>)
        ensures
            node@ == (Graph::Param { value: value@, name: name@ }),
    {
        Rc::new(Node::TensorParam(value, name))
    }

    /// The value cached at this node.
    pub fn value(&self) -> (v: &Tensor<T>)
        ensures
            v@ == self@.value(),
    {
        match self {
            Node::TensorParam(tensor, _) => tensor,
            Node::BinaryOp(res) => &res.value,
            Node::UnaryOp(res) => &res.value,
            Node::ReduceOp(res) => &res.value,
        }
    }

    /// A copy of the value cached at this node.
    pub fn val(&self) -> (v: Tensor<T>)
        ensures
            v@ == self@.value(),
    {
        self.value().clone()
    }
}

} // verus!
