//! The backward sweep: from an output node to a trace of gradients, one leaf
//! per occurrence of a parameter, and from the trace to the sum of the
//! gradients of each parameter name.

use vstd::prelude::*;
use vstd::hash_map::StringHashMap;
use crate::node::{
    BinaryOp, BinaryOpResult, Graph, Node, ReduceOp, ReduceOpResult, UnaryOp, UnaryOpResult,
};
use crate::ops::count;
use crate::scalar::Scalar;
use crate::shape::{compatible, lemma_broadcast_same};
use crate::tensor::Tensor;
use crate::view::TensorView;

verus! {

/// The trace of an operation with two operands.
pub struct BinOpTrace<T> {
    arg1: Box<DTrace<T>>,
    arg2: Box<DTrace<T>>,
}

/// The trace of an operation with one operand.
pub struct UnaryOpTrace<T> {
    arg: Box<DTrace<T>>,
}

/// The trace of a reduction.
pub struct ReduceOpTrace<T> {
    arg: Box<DTrace<T>>,
}

/// The gradient that reached one occurrence of a parameter.
pub struct DParamDX<T> {
    d_val: Tensor<T>,
    param_name: &'static str,
}

/// The tree that a backward sweep leaves behind. It has the form of the
/// expression that was differentiated.
pub enum DTrace<T> {
    BinOp(BinOpTrace<T>),
    UnaryOp(UnaryOpTrace<T>),
    ReduceOp(ReduceOpTrace<T>),
    DParamDX(DParamDX<T>),
}

/// The mathematical content of a trace.
pub enum Trace<T> {
    Leaf { name: Seq<char>, grad: TensorView<T> },
    Binary { left: Box<Trace<T>>, right: Box<Trace<T>> },
    Unary { arg: Box<Trace<T>> },
    Reduce { arg: Box<Trace<T>> },
}

impl<T> DTrace<T> {
    /// The mathematical content of the trace.
    pub closed spec fn model(self) -> Trace<T>
        decreases self,
    {
        match self {
            DTrace::DParamDX(leaf) => Trace::Leaf { name: leaf.param_name@, grad: leaf.d_val@ },
            DTrace::BinOp(op) => Trace::Binary {
                left: Box::new((*op.arg1).model()),
                right: Box::new((*op.arg2).model()),
            },
            DTrace::UnaryOp(op) => Trace::Unary { arg: Box::new((*op.arg).model()) },
            DTrace::ReduceOp(op) => Trace::Reduce { arg: Box::new((*op.arg).model()) },
        }
    }
}

impl<T> View for DTrace<T> {
    type V = Trace<T>;

    open spec fn view(&self) -> Trace<T> {
        self.model()
    }
}

impl<T: Scalar> Graph<T> {
    /// The sweep from this node with the given upstream gradient can be
    /// carried out: at every operation on the way the local gradients can be
    /// computed.
    pub open spec fn can_propagate(self, upstream: TensorView<T>) -> bool
        decreases self,
    {
        match self {
            Graph::Param { .. } => true,
            Graph::Binary { rule, left, right, .. } => {
                let g = rule.grads(upstream, left.value(), right.value());
                &&& rule.defined(upstream, left.value(), right.value())
                &&& left.can_propagate(g.0)
                &&& right.can_propagate(g.1)
            },
            Graph::Unary { rule, arg, .. } => {
                &&& rule.defined(upstream, arg.value())
                &&& arg.can_propagate(rule.grad(upstream, arg.value()))
            },
            Graph::Reduce { rule, arg, .. } => {
                &&& rule.defined(upstream, arg.value())
                &&& arg.can_propagate(rule.grad(upstream, arg.value()))
            },
        }
    }

    /// The trace of the sweep from this node with the given upstream
    /// gradient. A leaf passes the upstream gradient on with its name; an
    /// operation hands each operand its local gradient, computed from the
    /// upstream gradient and the operands' cached values.
    pub open spec fn trace(self, upstream: TensorView<T>) -> Trace<T>
        decreases self,
    {
        match self {
            Graph::Param { name, .. } => Trace::Leaf { name, grad: upstream },
            Graph::Binary { rule, left, right, .. } => {
                let g = rule.grads(upstream, left.value(), right.value());
                Trace::Binary {
                    left: Box::new(left.trace(g.0)),
                    right: Box::new(right.trace(g.1)),
                }
            },
            Graph::Unary { rule, arg, .. } => Trace::Unary {
                arg: Box::new(arg.trace(rule.grad(upstream, arg.value()))),
            },
            Graph::Reduce { rule, arg, .. } => Trace::Reduce {
                arg: Box::new(arg.trace(rule.grad(upstream, arg.value()))),
            },
        }
    }
}

/// One gradient with the name of the parameter that it belongs to.
pub type Contribution<T> = (Seq<char>, TensorView<T>);

impl<T: Scalar> Trace<T> {
    /// The gradients at the leaves of the trace, in the order of a
    /// depth-first walk.
    pub open spec fn leaves(self) -> Seq<Contribution<T>>
        decreases self,
    {
        match self {
            Trace::Leaf { name, grad } => seq![(name, grad)],
            Trace::Binary { left, right } => left.leaves() + right.leaves(),
            Trace::Unary { arg } => arg.leaves(),
            Trace::Reduce { arg } => arg.leaves(),
        }
    }
}

/// The gradients summed so far, by parameter name.
pub type Totals<T> = Map<Seq<char>, TensorView<T>>;

/// A gradient can be added to the total of its name.
pub open spec fn can_contribute<T: Scalar>(totals: Totals<T>, name: Seq<char>, grad: TensorView<T>) -> bool {
    totals.contains_key(name) ==> compatible(totals[name].shape, grad.shape)
}

/// The totals after one more gradient for `name`: it is added to the total
/// of that name, which starts as the zero tensor of the gradient's shape.
pub open spec fn contribute<T: Scalar>(totals: Totals<T>, name: Seq<char>, grad: TensorView<T>) -> Totals<T> {
    let base = if totals.contains_key(name) {
        totals[name]
    } else {
        TensorView::filled(grad.shape, T::of_count(0))
    };
    totals.insert(name, base.plus(grad))
}

impl<T: Scalar> Trace<T> {
    /// Every gradient of the trace can be added to the total of its name, in
    /// the order of a depth-first walk.
    pub open spec fn can_accumulate(self, totals: Totals<T>) -> bool
        decreases self,
    {
        match self {
            Trace::Leaf { name, grad } => can_contribute(totals, name, grad),
            Trace::Binary { left, right } => {
                &&& left.can_accumulate(totals)
                &&& right.can_accumulate(left.accumulate(totals))
            },
            Trace::Unary { arg } => arg.can_accumulate(totals),
            Trace::Reduce { arg } => arg.can_accumulate(totals),
        }
    }

    /// The totals after a depth-first walk over the trace.
    pub open spec fn accumulate(self, totals: Totals<T>) -> Totals<T>
        decreases self,
    {
        match self {
            Trace::Leaf { name, grad } => contribute(totals, name, grad),
            Trace::Binary { left, right } => right.accumulate(left.accumulate(totals)),
            Trace::Unary { arg } => arg.accumulate(totals),
            Trace::Reduce { arg } => arg.accumulate(totals),
        }
    }
}

/// The accumulated gradient of each parameter name.
#[verifier::reject_recursive_types(T)]
pub struct GradMap<T> {
    entries: StringHashMap<Tensor<T>>,
}

impl<T> View for GradMap<T> {
    type V = Map<Seq<char>, TensorView<T>>;

    closed spec fn view(&self) -> Map<Seq<char>, TensorView<T>> {
        Map::new(|name: Seq<char>| self.entries@.contains_key(name), |name: Seq<char>| self.entries@[name]@)
    }
}

impl<T: Scalar> GradMap<T> {
    /// The map without entries.
    pub fn new() -> (map: GradMap<T>)
        ensures
            map@ == Map::<Seq<char>, TensorView<T>>::empty(),
    {
        let map = GradMap { entries: StringHashMap::new() };
        assert(map@ =~= Map::<Seq<char>, TensorView<T>>::empty());
        map
    }

    /// The number of names.
    pub fn len(&self) -> (n: usize)
        ensures
            n == self@.dom().len(),
    {
        proof {
            broadcast use vstd::hash_map::axiom_string_hash_map_spec_len;
            assert(self@.dom() =~= self.entries@.dom());
        }
        self.entries.len()
    }

    /// Whether the map holds a gradient for the name.
    pub fn contains_key(&self, name: &str) -> (found: bool)
        ensures
            found == self@.contains_key(name@),
    {
        self.entries.contains_key(name)
    }

    /// The accumulated gradient of a name.
    pub fn get(&self, name: &str) -> (grad: Option<&Tensor<T>>)
        ensures
            grad.is_some() <==> self@.contains_key(name@),
            grad matches Some(t) ==> t@ == self@[name@],
    {
        self.entries.get(name)
    }

    /// Whether a gradient can be added to the total of its name.
    pub fn can_contribute(&self, name: &str, grad: &Tensor<T>) -> (ok: bool)
        ensures
            ok == can_contribute(self@, name@, grad@),
    {
        match self.entries.get(name) {
            Some(current) => Tensor::compatible(current, grad),
            None => true,
        }
    }

    /// Adds one gradient to the total of its name.
    pub fn contribute(&mut self, name: &str, grad: &Tensor<T>)
        requires
            can_contribute(old(self)@, name@, grad@),
        ensures
            final(self)@ == contribute(old(self)@, name@, grad@),
    {
        proof {
            use_type_invariant(grad);
        }
        let sum = match self.entries.get(name) {
            Some(current) => Tensor::add(current, grad),
            None => {
                proof {
                    lemma_broadcast_same(grad@.shape);
                }
                let zero = Tensor::zeros_like(grad);
                Tensor::add(&zero, grad)
            },
        };
        let total = match sum {
            Ok(t) => t,
            Err(_) => vstd::pervasive::unreached(),
        };
        self.entries.insert(name.to_owned(), total);
        assert(self@ =~= contribute(old(self)@, name@, grad@));
    }
}

impl<T: Scalar> Node<T> {
    /// Differentiates this node with respect to every parameter below it:
    /// the sweep starts with the rank-0 tensor that holds one.
    pub fn backwards(&self) -> (trace: DTrace<T>)
        requires
            self@.can_propagate(count(1)),
        ensures
            trace@ == self@.trace(count(1)),
    {
        self.back_impl(Tensor::from_scalar(T::from_count(1)))
    }

    /// The sweep from this node with the given upstream gradient.
    pub fn back_impl(&self, upstream: Tensor<T>) -> (trace: DTrace<T>)
        requires
            self@.can_propagate(upstream@),
        ensures
            trace@ == self@.trace(upstream@),
        decreases self, 1nat,
    {
        match self {
            Node::BinaryOp(res) => res.back(upstream),
            Node::UnaryOp(res) => res.back(upstream),
            Node::ReduceOp(res) => res.back(upstream),
            Node::TensorParam(_t, name) => DTrace::DParamDX(
                DParamDX { d_val: upstream, param_name: name },
            ),
        }
    }
}

impl<T: Scalar> Node<T> {
    /// Differentiates this node as `backwards` does, or returns `None` where
    /// the local gradients of some operation on the way cannot be computed.
    pub fn try_backwards(&self) -> (trace: Option<DTrace<T>>)
        ensures
            trace.is_some() <==> self@.can_propagate(count(1)),
            trace matches Some(t) ==> t@ == self@.trace(count(1)),
    {
        self.try_back_impl(Tensor::from_scalar(T::from_count(1)))
    }

    /// The sweep from this node with the given upstream gradient, or `None`
    /// where the local gradients of some operation on the way cannot be
    /// computed.
    pub fn try_back_impl(&self, upstream: Tensor<T>) -> (trace: Option<DTrace<T>>)
        ensures
            trace.is_some() <==> self@.can_propagate(upstream@),
            trace matches Some(t) ==> t@ == self@.trace(upstream@),
        decreases self,
    {
        match self {
            Node::TensorParam(_t, name) => Some(
                DTrace::DParamDX(DParamDX { d_val: upstream, param_name: name }),
            ),
            Node::BinaryOp(res) => {
                let args = (res.args.0.value(), res.args.1.value());
                if !res.op.accepts(&upstream, args) {
                    return None;
                }
                let (g_l, g_r) = res.op.get_grads(&upstream, args);
                let left = match res.args.0.try_back_impl(g_l) {
                    Some(t) => t,
                    None => {
                        return None;
                    },
                };
                let right = match res.args.1.try_back_impl(g_r) {
                    Some(t) => t,
                    None => {
                        return None;
                    },
                };
                Some(DTrace::BinOp(BinOpTrace { arg1: Box::new(left), arg2: Box::new(right) }))
            },
            Node::UnaryOp(res) => {
                if !res.op.accepts(&upstream, res.arg.value()) {
                    return None;
                }
                let g = res.op.get_grads(&upstream, res.arg.value());
                match res.arg.try_back_impl(g) {
                    Some(t) => Some(DTrace::UnaryOp(UnaryOpTrace { arg: Box::new(t) })),
                    None => None,
                }
            },
            Node::ReduceOp(res) => {
                if !res.op.accepts(&upstream, res.arg.value()) {
                    return None;
                }
                let g = res.op.get_grads(&upstream, res.arg.value());
                match res.arg.try_back_impl(g) {
                    Some(t) => Some(DTrace::ReduceOp(ReduceOpTrace { arg: Box::new(t) })),
                    None => None,
                }
            },
        }
    }

    /// The gradient of this node with respect to every parameter name below
    /// it, or `None` where the sweep or the summing is not defined.
    pub fn grad(&self) -> (grads: Option<GradMap<T>>)
        ensures
            grads.is_some() <==> self@.can_propagate(count(1)) && self@.trace(
                count(1),
            ).can_accumulate(Map::empty()),
            grads matches Some(g) ==> g@ == self@.trace(count(1)).accumulate(Map::empty()),
    {
        match self.try_backwards() {
            Some(trace) => try_accum_grads(trace),
            None => None,
        }
    }
}

/// The names and gradients of a list, as mathematical values.
pub open spec fn listed<T>(list: Seq<(&'static str, Tensor<T>)>) -> Seq<Contribution<T>> {
    Seq::new(list.len(), |i: int| (list[i].0@, list[i].1@))
}

impl<T: Scalar> DTrace<T> {
    /// The gradient of every occurrence of a parameter with its name, in the
    /// order of a depth-first walk. Nothing is summed: two leaves of one name
    /// stay apart.
    pub fn contributions(&self) -> (list: Vec<(&'static str, Tensor<T>)>)
        ensures
            listed(list@) == self@.leaves(),
    {
        let mut list: Vec<(&'static str, Tensor<T>)> = Vec::new();
        assert(listed(list@) =~= Seq::<Contribution<T>>::empty());
        self.collect(&mut list);
        assert(Seq::<Contribution<T>>::empty() + self@.leaves() =~= self@.leaves());
        list
    }

    /// Appends the gradients at the leaves of the trace.
    fn collect(&self, list: &mut Vec<(&'static str, Tensor<T>)>)
        ensures
            listed(final(list)@) == listed(old(list)@) + self@.leaves(),
        decreases self,
    {
        match self {
            DTrace::BinOp(op) => {
                op.arg1.collect(list);
                op.arg2.collect(list);
                assert(listed(list@) =~= listed(old(list)@) + self@.leaves());
            },
            DTrace::UnaryOp(op) => op.arg.collect(list),
            DTrace::ReduceOp(op) => op.arg.collect(list),
            DTrace::DParamDX(param) => {
                list.push((param.param_name, param.d_val.clone()));
                assert(listed(list@) =~= listed(old(list)@) + self@.leaves());
            },
        }
    }
}

impl<T: Scalar> BinaryOpResult<T> {
    /// The sweep from the result of a binary operation.
    fn back(&self, upstream: Tensor<T>) -> (trace: DTrace<T>)
        requires
            Node::BinaryOp(*self)@.can_propagate(upstream@),
        ensures
            trace@ == Node::BinaryOp(*self)@.trace(upstream@),
        decreases self, 0nat,
    {
        let (g_l, g_r) = self.op.get_grads(&upstream, (self.args.0.value(), self.args.1.value()));
        let left = self.args.0.back_impl(g_l);
        let right = self.args.1.back_impl(g_r);
        DTrace::BinOp(BinOpTrace { arg1: Box::new(left), arg2: Box::new(right) })
    }
}

impl<T: Scalar> UnaryOpResult<T> {
    /// The sweep from the result of a unary operation.
    fn back(&self, upstream: Tensor<T>) -> (trace: DTrace<T>)
        requires
            Node::UnaryOp(*self)@.can_propagate(upstream@),
        ensures
            trace@ == Node::UnaryOp(*self)@.trace(upstream@),
        decreases self, 0nat,
    {
        let g = self.op.get_grads(&upstream, self.arg.value());
        DTrace::UnaryOp(UnaryOpTrace { arg: Box::new(self.arg.back_impl(g)) })
    }
}

impl<T: Scalar> ReduceOpResult<T> {
    /// The sweep from the result of a reduction.
    fn back(&self, upstream: Tensor<T>) -> (trace: DTrace<T>)
        requires
            Node::ReduceOp(*self)@.can_propagate(upstream@),
        ensures
            trace@ == Node::ReduceOp(*self)@.trace(upstream@),
        decreases self, 0nat,
    {
        let g = self.op.get_grads(&upstream, self.arg.value());
        DTrace::ReduceOp(ReduceOpTrace { arg: Box::new(self.arg.back_impl(g)) })
    }
}

/// Sums the gradients of a trace by parameter name, in the order of a
/// depth-first walk. Two leaves of one name feed one entry.
pub fn accum_grads<T: Scalar>(node: DTrace<T>) -> (map: GradMap<T>)
    requires
        node@.can_accumulate(Map::empty()),
    ensures
        map@ == node@.accumulate(Map::empty()),
{
    let mut map = GradMap::new();
    _accum_grads(&node, &mut map);
    map
}

/// Walks the trace and adds each leaf's gradient to the total of its name.
fn _accum_grads<T: Scalar>(node: &DTrace<T>, map: &mut GradMap<T>)
    requires
        node@.can_accumulate(old(map)@),
    ensures
        final(map)@ == node@.accumulate(old(map)@),
    decreases node,
{
    match node {
        DTrace::BinOp(op) => {
            _accum_grads(&*op.arg1, map);
            _accum_grads(&*op.arg2, map);
        },
        DTrace::UnaryOp(op) => _accum_grads(&*op.arg, map),
        DTrace::ReduceOp(op) => _accum_grads(&*op.arg, map),
        DTrace::DParamDX(param) => {
            map.contribute(param.param_name, &param.d_val);
        },
    }
}

/// Sums the gradients of a trace as `accum_grads` does, or returns `None`
/// where some gradient cannot be added to the total of its name.
pub fn try_accum_grads<T: Scalar>(node: DTrace<T>) -> (map: Option<GradMap<T>>)
    ensures
        map.is_some() <==> node@.can_accumulate(Map::empty()),
        map matches Some(m) ==> m@ == node@.accumulate(Map::empty()),
{
    let mut map = GradMap::new();
    if _try_accum_grads(&node, &mut map) {
        Some(map)
    } else {
        None
    }
}

/// Walks the trace and adds each leaf's gradient to the total of its name,
/// as far as that is possible; says whether all of them were added.
fn _try_accum_grads<T: Scalar>(node: &DTrace<T>, map: &mut GradMap<T>) -> (done: bool)
    ensures
        done == node@.can_accumulate(old(map)@),
        done ==> final(map)@ == node@.accumulate(old(map)@),
    decreases node,
{
    match node {
        DTrace::BinOp(op) => {
            if !_try_accum_grads(&*op.arg1, map) {
                return false;
            }
            _try_accum_grads(&*op.arg2, map)
        },
        DTrace::UnaryOp(op) => _try_accum_grads(&*op.arg, map),
        DTrace::ReduceOp(op) => _try_accum_grads(&*op.arg, map),
        DTrace::DParamDX(param) => {
            if !map.can_contribute(param.param_name, &param.d_val) {
                return false;
            }
            map.contribute(param.param_name, &param.d_val);
            true
        },
    }
}

} // verus!
