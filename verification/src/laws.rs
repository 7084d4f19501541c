//! What holds of the engine as a whole.

use vstd::prelude::*;
use vstd::seq_lib::{to_multiset_contains, to_multiset_remove};
use crate::backward::{contribute, Contribution, Totals, Trace};
use crate::node::{Graph, ReduceOp};
use crate::ops::{count, MeanOp, ReduceKind, UnaryRule};
use crate::scalar::Scalar;
use crate::shape::{
    aligned_dim, broadcast_dim, broadcast_shape, clamp, compatible, direction_at, extent,
    in_bounds, joint_rank, lemma_broadcast_same, lemma_extent_skip, lemma_offset_row_major_bound,
    lemma_offset_unravel, lemma_source_in_bounds, lemma_unravel_in_bounds, lemma_volume_positive,
    source_coord, unravel, volume,
};
use crate::view::{lemma_dense_wf, lemma_zip_with_get, TensorView};

verus! {

impl<T: Scalar> Graph<T> {
    /// Every cached value is the value of the operation on the cached values
    /// of its operands, and what an operation keeps of its operand agrees
    /// with the operand: the graph is as the forward combinators build it.
    pub open spec fn evaluated(self) -> bool
        decreases self,
    {
        match self {
            Graph::Param { .. } => true,
            Graph::Binary { rule, left, right, value } => {
                &&& left.evaluated()
                &&& right.evaluated()
                &&& value == rule.forward_value(left.value(), right.value())
            },
            Graph::Unary { rule, arg, value } => {
                &&& arg.evaluated()
                &&& rule.captured_from(arg.value())
                &&& value == rule.forward_value(arg.value())
            },
            Graph::Reduce { rule, arg, value } => {
                &&& arg.evaluated()
                &&& rule.captured_from(arg.value())
                &&& value == rule.forward_value(arg.value())
            },
        }
    }

    /// Two graphs apply the same operations in the same arrangement to
    /// leaves of the same names and values.
    pub open spec fn same_inputs(self, other: Graph<T>) -> bool
        decreases self,
    {
        match (self, other) {
            (Graph::Param { value: v1, name: n1 }, Graph::Param { value: v2, name: n2 }) => v1 == v2
                && n1 == n2,
            (
                Graph::Binary { rule: r1, left: l1, right: t1, .. },
                Graph::Binary { rule: r2, left: l2, right: t2, .. },
            ) => r1 == r2 && l1.same_inputs(*l2) && t1.same_inputs(*t2),
            (Graph::Unary { rule: r1, arg: a1, .. }, Graph::Unary { rule: r2, arg: a2, .. }) => {
                &&& a1.same_inputs(*a2)
                &&& match (r1, r2) {
                    (UnaryRule::Sqr, UnaryRule::Sqr) => true,
                    (UnaryRule::Neg, UnaryRule::Neg) => true,
                    (UnaryRule::Relu { .. }, UnaryRule::Relu { .. }) => true,
                    _ => false,
                }
            },
            (Graph::Reduce { arg: a1, .. }, Graph::Reduce { arg: a2, .. }) => a1.same_inputs(*a2),
            _ => false,
        }
    }

    /// The gradient of the root with respect to each parameter name: the
    /// totals of the trace of the sweep that starts with one.
    pub open spec fn gradients(self) -> Totals<T> {
        self.trace(count(1)).accumulate(Map::empty())
    }
}

/// Determinism. Two graphs built by the same operations from leaves of the
/// same names and values are one and the same: they hold the same forward
/// value at every vertex, leave the same trace and give the same gradient
/// for every name.
pub proof fn lemma_same_inputs_same_results<T: Scalar>(a: Graph<T>, b: Graph<T>)
    requires
        a.evaluated(),
        b.evaluated(),
        a.same_inputs(b),
    ensures
        a == b,
        a.value() == b.value(),
        a.gradients() == b.gradients(),
    decreases a,
{
    match (a, b) {
        (
            Graph::Binary { left: l1, right: t1, .. },
            Graph::Binary { left: l2, right: t2, .. },
        ) => {
            lemma_same_inputs_same_results(*l1, *l2);
            lemma_same_inputs_same_results(*t1, *t2);
        },
        (Graph::Unary { arg: a1, .. }, Graph::Unary { arg: a2, .. }) => {
            lemma_same_inputs_same_results(*a1, *a2);
        },
        (
            Graph::Reduce { rule: r1, arg: a1, .. },
            Graph::Reduce { rule: r2, arg: a2, .. },
        ) => {
            lemma_same_inputs_same_results(*a1, *a2);
            match (r1, r2) {
                (ReduceKind::Mean(m1), ReduceKind::Mean(m2)) => {
                    assert(m1.input_n_elements == m2.input_n_elements);
                },
            }
        },
        _ => {},
    }
}

/// The totals after the gradients of a sequence have been added one by one.
pub open spec fn sum_up<T: Scalar>(leaves: Seq<Contribution<T>>, totals: Totals<T>) -> Totals<T> {
    leaves.fold_left(totals, |m: Totals<T>, x: Contribution<T>| contribute(m, x.0, x.1))
}

/// Walking a trace adds up the gradients at its leaves in depth-first order.
pub proof fn lemma_accumulate_sums_leaves<T: Scalar>(trace: Trace<T>, totals: Totals<T>)
    ensures
        trace.accumulate(totals) == sum_up(trace.leaves(), totals),
    decreases trace,
{
    let f = |m: Totals<T>, x: Contribution<T>| contribute(m, x.0, x.1);
    match trace {
        Trace::Leaf { name, grad } => {
            let one = seq![(name, grad)];
            assert(one.drop_last() =~= Seq::<Contribution<T>>::empty());
            assert(one.fold_left(totals, f) == f(one.drop_last().fold_left(totals, f), one.last()));
        },
        Trace::Binary { left, right } => {
            lemma_accumulate_sums_leaves(*left, totals);
            lemma_accumulate_sums_leaves(*right, left.accumulate(totals));
            let all = left.leaves() + right.leaves();
            let k = left.leaves().len() as int;
            all.lemma_fold_left_split(totals, f, k);
            assert(all.subrange(0, k) =~= left.leaves());
            assert(all.subrange(k, all.len() as int) =~= right.leaves());
        },
        Trace::Unary { arg } => {
            lemma_accumulate_sums_leaves(*arg, totals);
        },
        Trace::Reduce { arg } => {
            lemma_accumulate_sums_leaves(*arg, totals);
        },
    }
}

impl<T: Scalar> Trace<T> {
    /// The names at the leaves of the trace.
    pub open spec fn names(self) -> Set<Seq<char>>
        decreases self,
    {
        match self {
            Trace::Leaf { name, .. } => set![name],
            Trace::Binary { left, right } => left.names().union(right.names()),
            Trace::Unary { arg } => arg.names(),
            Trace::Reduce { arg } => arg.names(),
        }
    }
}

/// One entry per name. After a walk the totals hold an entry for a name
/// exactly if they held one before or the name stands at a leaf of the trace.
pub proof fn lemma_accumulate_names<T: Scalar>(trace: Trace<T>, totals: Totals<T>)
    ensures
        trace.accumulate(totals).dom() == totals.dom().union(trace.names()),
    decreases trace,
{
    match trace {
        Trace::Leaf { name, grad } => {
            assert(trace.accumulate(totals).dom() =~= totals.dom().union(trace.names()));
        },
        Trace::Binary { left, right } => {
            lemma_accumulate_names(*left, totals);
            lemma_accumulate_names(*right, left.accumulate(totals));
            assert(trace.accumulate(totals).dom() =~= totals.dom().union(trace.names()));
        },
        Trace::Unary { arg } => {
            lemma_accumulate_names(*arg, totals);
        },
        Trace::Reduce { arg } => {
            lemma_accumulate_names(*arg, totals);
        },
    }
}

/// Addition of scalars does not depend on the order of its operands.
pub open spec fn sum_is_commutative<T: Scalar>() -> bool {
    forall|a: T, b: T| #[trigger] a.sum(b) == b.sum(a)
}

/// Addition of scalars does not depend on how the operands are grouped.
pub open spec fn sum_is_associative<T: Scalar>() -> bool {
    forall|a: T, b: T, c: T| #[trigger] a.sum(b).sum(c) == a.sum(b.sum(c))
}

/// Addition of 64-bit integers that wraps on overflow is commutative and
/// associative.
pub proof fn lemma_integer_sum_laws()
    ensures
        sum_is_commutative::<i64>(),
        sum_is_associative::<i64>(),
{
}

/// A step keeps the invariant of the state wherever the item is acceptable.
spec fn preserves<A, B>(f: spec_fn(B, A) -> B, inv: spec_fn(B) -> bool, ok: spec_fn(A) -> bool) -> bool {
    forall|b: B, x: A| inv(b) && ok(x) ==> inv(#[trigger] f(b, x))
}

/// Two steps with acceptable items can be exchanged.
spec fn exchanges<A, B>(f: spec_fn(B, A) -> B, inv: spec_fn(B) -> bool, ok: spec_fn(A) -> bool) -> bool {
    forall|b: B, x: A, y: A| inv(b) && ok(x) && ok(y) ==> #[trigger] f(f(b, x), y) == f(f(b, y), x)
}

spec fn all_ok<A>(items: Seq<A>, ok: spec_fn(A) -> bool) -> bool {
    forall|i: int| 0 <= i < items.len() ==> ok(#[trigger] items[i])
}

proof fn lemma_fold_keeps<A, B>(
    items: Seq<A>,
    f: spec_fn(B, A) -> B,
    v: B,
    inv: spec_fn(B) -> bool,
    ok: spec_fn(A) -> bool,
)
    requires
        inv(v),
        all_ok(items, ok),
        preserves(f, inv, ok),
    ensures
        inv(items.fold_left(v, f)),
    decreases items.len(),
{
    if items.len() > 0 {
        lemma_fold_keeps(items.drop_last(), f, v, inv, ok);
        assert(ok(items[items.len() - 1]));
    }
}

proof fn lemma_fold_moves_to_end<A, B>(
    items: Seq<A>,
    j: int,
    f: spec_fn(B, A) -> B,
    v: B,
    inv: spec_fn(B) -> bool,
    ok: spec_fn(A) -> bool,
)
    requires
        0 <= j < items.len(),
        inv(v),
        all_ok(items, ok),
        preserves(f, inv, ok),
        exchanges(f, inv, ok),
    ensures
        items.fold_left(v, f) == f(items.remove(j).fold_left(v, f), items[j]),
    decreases items.len(),
{
    let front = items.drop_last();
    if j == items.len() - 1 {
        assert(items.remove(j) =~= front);
    } else {
        lemma_fold_moves_to_end(front, j, f, v, inv, ok);
        let rest = front.remove(j);
        assert(items.remove(j).drop_last() =~= rest);
        assert(items.remove(j).last() == items.last());
        assert(all_ok(rest, ok)) by {
            assert forall|i: int| 0 <= i < rest.len() implies ok(#[trigger] rest[i]) by {
                if i < j {
                    assert(rest[i] == items[i]);
                } else {
                    assert(rest[i] == items[i + 1]);
                }
            }
        }
        lemma_fold_keeps(rest, f, v, inv, ok);
        let b = rest.fold_left(v, f);
        assert(ok(items[j]) && ok(items[items.len() - 1]));
        assert(f(f(b, items[j]), items.last()) == f(f(b, items.last()), items[j]));
    }
}

proof fn lemma_fold_any_order<A, B>(
    first: Seq<A>,
    second: Seq<A>,
    f: spec_fn(B, A) -> B,
    v: B,
    inv: spec_fn(B) -> bool,
    ok: spec_fn(A) -> bool,
)
    requires
        first.to_multiset() == second.to_multiset(),
        inv(v),
        all_ok(first, ok),
        preserves(f, inv, ok),
        exchanges(f, inv, ok),
    ensures
        first.fold_left(v, f) == second.fold_left(v, f),
    decreases first.len(),
{
    broadcast use vstd::seq_lib::group_to_multiset_ensures;

    assert(all_ok(second, ok)) by {
        assert forall|i: int| 0 <= i < second.len() implies ok(#[trigger] second[i]) by {
            let x = second[i];
            assert(second.contains(x));
            to_multiset_contains(second, x);
            to_multiset_contains(first, x);
            let k = choose|k: int| 0 <= k < first.len() && first[k] == x;
            assert(ok(first[k]));
        }
    }
    if first.len() == 0 {
        assert(second.to_multiset().len() == 0);
        assert(second.len() == 0);
    } else {
        let x = first.last();
        assert(first.contains(x));
        to_multiset_contains(first, x);
        to_multiset_contains(second, x);
        let j = choose|j: int| 0 <= j < second.len() && second[j] == x;
        let front = first.drop_last();
        assert(front =~= first.remove(first.len() - 1));
        to_multiset_remove(first, first.len() - 1);
        to_multiset_remove(second, j);
        assert(all_ok(front, ok)) by {
            assert forall|i: int| 0 <= i < front.len() implies ok(#[trigger] front[i]) by {
                assert(front[i] == first[i]);
            }
        }
        lemma_fold_any_order(front, second.remove(j), f, v, inv, ok);
        lemma_fold_moves_to_end(second, j, f, v, inv, ok);
    }
}

/// A shape fits a bound when it is the bound, or when the bound is not empty
/// and the shape, aligned to the last axes of the bound, has on every axis
/// either size 1 or the size of the bound.
pub open spec fn fits(shape: Seq<usize>, bound: Seq<usize>) -> bool {
    ||| shape == bound
    ||| {
        &&& volume(bound) > 0
        &&& shape.len() <= bound.len()
        &&& forall|i: int|
            0 <= i < shape.len() ==> (#[trigger] shape[i]) == 1 || shape[i] == bound[i + (
            bound.len() - shape.len())]
    }
}

/// Every gradient is well formed and fits the bound of its name, and the
/// bounds can be addressed.
pub open spec fn bounded_by<T: Scalar>(
    leaves: Seq<Contribution<T>>,
    dims: spec_fn(Seq<char>) -> Seq<usize>,
) -> bool {
    forall|i: int|
        0 <= i < leaves.len() ==> {
            &&& (#[trigger] leaves[i]).1.wf()
            &&& fits(leaves[i].1.shape, dims(leaves[i].0))
            &&& extent(dims(leaves[i].0)) <= usize::MAX
        }
}

spec fn settled<T: Scalar>(totals: Totals<T>, dims: spec_fn(Seq<char>) -> Seq<usize>) -> bool {
    forall|name: Seq<char>| #[trigger]
        totals.contains_key(name) ==> totals[name].wf() && totals[name].contiguous() && fits(
            totals[name].shape,
            dims(name),
        )
}

proof fn lemma_extent_pointwise(s: Seq<usize>, d: Seq<usize>)
    requires
        s.len() == d.len(),
        forall|i: int| 0 <= i < s.len() ==> 1 <= #[trigger] s[i] <= d[i],
    ensures
        extent(s) <= extent(d),
    decreases s.len(),
{
    if s.len() > 0 {
        assert forall|i: int| 0 <= i < s.skip(1).len() implies 1 <= #[trigger] s.skip(1)[i]
            <= d.skip(1)[i] by {
            assert(s.skip(1)[i] == s[i + 1]);
        }
        lemma_extent_pointwise(s.skip(1), d.skip(1));
        let a = clamp(s[0]);
        let b = clamp(d[0]);
        let x = extent(s.skip(1));
        let y = extent(d.skip(1));
        assert(1 <= s[0] <= d[0]);
        assert(a * x <= b * y) by (nonlinear_arith)
            requires
                a <= b,
                x <= y,
        ;
    }
}

/// Two shapes that fit one non-empty bound can be combined, the joint shape
/// fits the bound, and each of the two fits the joint shape.
proof fn lemma_fits_join(a: Seq<usize>, b: Seq<usize>, d: Seq<usize>)
    requires
        volume(d) > 0,
        extent(d) <= usize::MAX,
        fits(a, d),
        fits(b, d),
    ensures
        compatible(a, b),
        volume(a) > 0,
        volume(b) > 0,
        volume(broadcast_shape(a, b)) > 0,
        fits(broadcast_shape(a, b), d),
        fits(a, broadcast_shape(a, b)),
        fits(b, broadcast_shape(a, b)),
        extent(broadcast_shape(a, b)) <= usize::MAX,
{
    let j = broadcast_shape(a, b);
    let r = joint_rank(a, b);
    lemma_volume_positive(d);
    lemma_volume_positive(a);
    lemma_volume_positive(b);
    lemma_volume_positive(j);
    assert forall|i: int| 0 <= i < a.len() implies (#[trigger] a[i]) == 1 || a[i] == d[i + (d.len()
        - a.len())] by {}
    assert forall|i: int| 0 <= i < b.len() implies (#[trigger] b[i]) == 1 || b[i] == d[i + (d.len()
        - b.len())] by {}
    assert forall|axis: int| 0 <= axis < r implies {
        let x = aligned_dim(a, r, axis);
        let y = aligned_dim(b, r, axis);
        let z = d[axis + (d.len() - r)];
        &&& (x == 1 || x == z)
        &&& (y == 1 || y == z)
        &&& #[trigger] j[axis] == (if x > y {
            x
        } else {
            y
        })
        &&& z >= 1
    } by {
        if axis >= r - a.len() {
            assert(a[axis - (r - a.len())] == aligned_dim(a, r, axis));
        }
        if axis >= r - b.len() {
            assert(b[axis - (r - b.len())] == aligned_dim(b, r, axis));
        }
    }
    assert forall|axis: int| 0 <= axis < r implies (#[trigger] direction_at(a, b, axis)).is_some() by {
        assert(j[axis] == j[axis]);
    }
    assert forall|i: int| 0 <= i < j.len() implies (#[trigger] j[i]) == 1 || j[i] == d[i + (d.len()
        - j.len())] by {}
    assert forall|i: int| 0 <= i < a.len() implies (#[trigger] a[i]) == 1 || a[i] == j[i + (j.len()
        - a.len())] by {
        let axis = i + (r - a.len());
        assert(j[axis] == j[axis]);
        assert(a[i] == aligned_dim(a, r, axis));
    }
    assert forall|i: int| 0 <= i < b.len() implies (#[trigger] b[i]) == 1 || b[i] == j[i + (j.len()
        - b.len())] by {
        let axis = i + (r - b.len());
        assert(j[axis] == j[axis]);
        assert(b[i] == aligned_dim(b, r, axis));
    }
    assert forall|i: int| 0 <= i < j.len() implies (#[trigger] j[i]) > 0 by {}
    assert forall|i: int| 0 <= i < a.len() implies (#[trigger] a[i]) > 0 by {}
    assert forall|i: int| 0 <= i < b.len() implies (#[trigger] b[i]) > 0 by {}
    let tail = d.skip(d.len() - r);
    assert forall|i: int| 0 <= i < j.len() implies 1 <= #[trigger] j[i] <= tail[i] by {}
    lemma_extent_pointwise(j, tail);
    lemma_extent_skip(d, d.len() - r);
}

/// Reading the source of a source: where a shape fits a non-empty joint
/// shape, the source coordinate in the shape of the source coordinate in
/// the joint shape is the source coordinate in the shape.
proof fn lemma_source_of_source(coord: Seq<usize>, s: Seq<usize>, j: Seq<usize>)
    requires
        volume(j) > 0,
        fits(s, j),
        j.len() <= coord.len(),
    ensures
        source_coord(source_coord(coord, j), s) == source_coord(coord, s),
{
    assert forall|i: int| 0 <= i < s.len() implies (#[trigger] s[i]) == 1 || s[i] == j[i + (j.len()
        - s.len())] by {}
    assert(source_coord(source_coord(coord, j), s) =~= source_coord(coord, s));
}

/// At a coordinate of a larger joint shape, the sum of two tensors that fit
/// one non-empty bound holds the sum of their elements at the coordinate's
/// sources.
proof fn lemma_plus_at<T: Scalar>(
    a: TensorView<T>,
    b: TensorView<T>,
    d: Seq<usize>,
    coord: Seq<usize>,
)
    requires
        a.wf(),
        b.wf(),
        volume(d) > 0,
        extent(d) <= usize::MAX,
        fits(a.shape, d),
        fits(b.shape, d),
        broadcast_shape(a.shape, b.shape).len() <= coord.len(),
        in_bounds(
            source_coord(coord, broadcast_shape(a.shape, b.shape)),
            broadcast_shape(a.shape, b.shape),
        ),
    ensures
        a.plus(b).get(source_coord(coord, a.plus(b).shape)) == a.get(
            source_coord(coord, a.shape),
        ).sum(b.get(source_coord(coord, b.shape))),
{
    let j = broadcast_shape(a.shape, b.shape);
    lemma_fits_join(a.shape, b.shape, d);
    let inner = source_coord(coord, j);
    lemma_zip_with_get(a, b, |x: T, y: T| x.sum(y), inner);
    lemma_source_of_source(coord, a.shape, j);
    lemma_source_of_source(coord, b.shape, j);
}

/// The sum of two well-formed tensors that fit one non-empty bound is well
/// formed, densely packed, and fits the bound.
proof fn lemma_plus_fits<T: Scalar>(a: TensorView<T>, b: TensorView<T>, d: Seq<usize>)
    requires
        a.wf(),
        b.wf(),
        volume(d) > 0,
        extent(d) <= usize::MAX,
        fits(a.shape, d),
        fits(b.shape, d),
    ensures
        a.plus(b).wf(),
        a.plus(b).contiguous(),
        a.plus(b).shape == broadcast_shape(a.shape, b.shape),
        fits(a.plus(b).shape, d),
{
    lemma_fits_join(a.shape, b.shape, d);
    lemma_dense_wf(broadcast_shape(a.shape, b.shape), a.plus(b).data);
}

proof fn lemma_join_exchanges(b: Seq<usize>, g: Seq<usize>, h: Seq<usize>, d: Seq<usize>)
    requires
        volume(d) > 0,
        extent(d) <= usize::MAX,
        fits(b, d),
        fits(g, d),
        fits(h, d),
    ensures
        broadcast_shape(broadcast_shape(b, g), h) == broadcast_shape(broadcast_shape(b, h), g),
{
    let bg = broadcast_shape(b, g);
    let bh = broadcast_shape(b, h);
    let l = broadcast_shape(bg, h);
    let r = broadcast_shape(bh, g);
    lemma_fits_join(b, g, d);
    lemma_fits_join(b, h, d);
    assert(l.len() == r.len());
    let n = l.len();
    assert forall|axis: int| 0 <= axis < n implies l[axis] == r[axis] by {
        let x = aligned_dim(b, n, axis);
        let y = aligned_dim(g, n, axis);
        let z = aligned_dim(h, n, axis);
        let rbg = joint_rank(b, g);
        let rbh = joint_rank(b, h);
        if axis >= n - rbg {
            let inner = axis - (n - rbg);
            assert(bg[inner] == broadcast_dim(b, g, inner));
        }
        if axis >= n - rbh {
            let inner = axis - (n - rbh);
            assert(bh[inner] == broadcast_dim(b, h, inner));
        }
        assert(aligned_dim(bg, n, axis) == if x > y {
            x
        } else {
            y
        });
        assert(aligned_dim(bh, n, axis) == if x > z {
            x
        } else {
            z
        });
        assert(l[axis] == broadcast_dim(bg, h, axis));
        assert(r[axis] == broadcast_dim(bh, g, axis));
    }
    assert(l =~= r);
}

/// Adding two gradients to a total gives the same tensor in either order,
/// where all three fit one non-empty bound.
proof fn lemma_plus_exchanges_within<T: Scalar>(
    base: TensorView<T>,
    g: TensorView<T>,
    h: TensorView<T>,
    d: Seq<usize>,
)
    requires
        sum_is_commutative::<T>(),
        sum_is_associative::<T>(),
        base.wf(),
        g.wf(),
        h.wf(),
        volume(d) > 0,
        extent(d) <= usize::MAX,
        fits(base.shape, d),
        fits(g.shape, d),
        fits(h.shape, d),
    ensures
        base.plus(g).plus(h) == base.plus(h).plus(g),
{
    let bg = base.plus(g);
    let bh = base.plus(h);
    lemma_plus_fits(base, g, d);
    lemma_plus_fits(base, h, d);
    lemma_plus_fits(bg, h, d);
    lemma_plus_fits(bh, g, d);
    lemma_join_exchanges(base.shape, g.shape, h.shape, d);
    let left = bg.plus(h);
    let right = bh.plus(g);
    let j = left.shape;
    assert(right.shape == j);
    lemma_fits_join(bg.shape, h.shape, d);
    lemma_fits_join(bh.shape, g.shape, d);
    assert(left.data.len() == volume(j) && right.data.len() == volume(j));
    assert forall|k: int| 0 <= k < volume(j) implies left.data[k] == right.data[k] by {
        let c = unravel(k as nat, j);
        lemma_unravel_in_bounds(k as nat, j);
        lemma_source_in_bounds(c, bg.shape, h.shape);
        lemma_source_in_bounds(c, bh.shape, g.shape);
        lemma_plus_at(base, g, d, c);
        lemma_plus_at(base, h, d, c);
        let x = base.get(source_coord(c, base.shape));
        let y = g.get(source_coord(c, g.shape));
        let z = h.get(source_coord(c, h.shape));
        assert(left.data[k] == x.sum(y).sum(z));
        assert(right.data[k] == x.sum(z).sum(y));
        assert(x.sum(y).sum(z) == x.sum(y.sum(z)));
        assert(y.sum(z) == z.sum(y));
        assert(x.sum(z).sum(y) == x.sum(z.sum(y)));
    }
    assert(left.data =~= right.data);
}

/// Where both operands have one shape, the element that feeds a position of
/// the sum is the element at the coordinate of that position.
proof fn lemma_plus_same_shape<T: Scalar>(a: TensorView<T>, b: TensorView<T>, k: int)
    requires
        a.wf(),
        b.wf(),
        a.shape == b.shape,
        0 <= k < volume(a.shape),
    ensures
        a.plus(b).data[k] == a.get(unravel(k as nat, a.shape)).sum(
            b.get(unravel(k as nat, a.shape)),
        ),
        a.plus(b).get(unravel(k as nat, a.shape)) == a.plus(b).data[k],
{
    let s = a.shape;
    lemma_broadcast_same(s);
    lemma_unravel_in_bounds(k as nat, s);
    lemma_offset_unravel(k as nat, s);
    let c = unravel(k as nat, s);
    assert(source_coord(c, s) =~= c);
}

proof fn lemma_plus_shape<T: Scalar>(a: TensorView<T>, b: TensorView<T>)
    requires
        a.wf(),
        b.wf(),
        a.shape == b.shape,
    ensures
        a.plus(b).wf(),
        a.plus(b).contiguous(),
        a.plus(b).shape == a.shape,
{
    let s = a.shape;
    lemma_broadcast_same(s);
    lemma_dense_wf(s, a.plus(b).data);
}

/// Adding two gradients of one shape to a total of that shape gives the
/// same tensor in either order.
proof fn lemma_plus_exchanges<T: Scalar>(base: TensorView<T>, g: TensorView<T>, h: TensorView<T>)
    requires
        sum_is_commutative::<T>(),
        sum_is_associative::<T>(),
        base.wf(),
        g.wf(),
        h.wf(),
        base.shape == g.shape,
        base.shape == h.shape,
    ensures
        base.plus(g).plus(h) == base.plus(h).plus(g),
{
    let s = base.shape;
    lemma_plus_shape(base, g);
    lemma_plus_shape(base, h);
    lemma_plus_shape(base.plus(g), h);
    lemma_plus_shape(base.plus(h), g);
    let left = base.plus(g).plus(h);
    let right = base.plus(h).plus(g);
    lemma_broadcast_same(s);
    assert(left.data.len() == volume(s) && right.data.len() == volume(s));
    assert forall|k: int| 0 <= k < volume(s) implies left.data[k] == right.data[k] by {
        lemma_plus_same_shape(base, g, k);
        lemma_plus_same_shape(base, h, k);
        lemma_plus_same_shape(base.plus(g), h, k);
        lemma_plus_same_shape(base.plus(h), g, k);
        let c = unravel(k as nat, s);
        let x = base.get(c);
        let y = g.get(c);
        let z = h.get(c);
        assert(x.sum(y).sum(z) == x.sum(y.sum(z)));
        assert(y.sum(z) == z.sum(y));
        assert(x.sum(z).sum(y) == x.sum(z.sum(y)));
    }
    assert(left.data =~= right.data);
}

proof fn lemma_zero_wf<T: Scalar>(g: TensorView<T>)
    requires
        g.wf(),
    ensures
        TensorView::filled(g.shape, T::of_count(0)).wf(),
        TensorView::filled(g.shape, T::of_count(0)).shape == g.shape,
{
    lemma_dense_wf(g.shape, TensorView::filled(g.shape, T::of_count(0)).data);
}

/// Two gradients of a name that has no total yet give the same total in
/// either order, where both fit one non-empty bound.
proof fn lemma_first_sight_exchanges<T: Scalar>(g: TensorView<T>, h: TensorView<T>, d: Seq<usize>)
    requires
        sum_is_commutative::<T>(),
        sum_is_associative::<T>(),
        g.wf(),
        h.wf(),
        volume(d) > 0,
        extent(d) <= usize::MAX,
        fits(g.shape, d),
        fits(h.shape, d),
    ensures
        TensorView::filled(g.shape, T::of_count(0)).plus(g).plus(h) == TensorView::filled(
            h.shape,
            T::of_count(0),
        ).plus(h).plus(g),
{
    let zero = T::of_count(0);
    let zg = TensorView::filled(g.shape, zero);
    let zh = TensorView::filled(h.shape, zero);
    lemma_zero_wf(g);
    lemma_zero_wf(h);
    lemma_plus_fits(zg, g, d);
    lemma_plus_fits(zh, h, d);
    lemma_plus_fits(zg.plus(g), h, d);
    lemma_plus_fits(zh.plus(h), g, d);
    lemma_broadcast_same(g.shape);
    lemma_broadcast_same(h.shape);
    let left = zg.plus(g).plus(h);
    let right = zh.plus(h).plus(g);
    let j = left.shape;
    assert(broadcast_shape(g.shape, h.shape) =~= broadcast_shape(h.shape, g.shape));
    assert(right.shape == j);
    lemma_fits_join(g.shape, h.shape, d);
    lemma_fits_join(h.shape, g.shape, d);
    assert(left.data.len() == volume(j) && right.data.len() == volume(j));
    assert forall|k: int| 0 <= k < volume(j) implies left.data[k] == right.data[k] by {
        let c = unravel(k as nat, j);
        lemma_unravel_in_bounds(k as nat, j);
        lemma_source_in_bounds(c, g.shape, h.shape);
        lemma_plus_at(zg, g, d, c);
        lemma_plus_at(zh, h, d, c);
        lemma_offset_row_major_bound(source_coord(c, g.shape), g.shape);
        lemma_offset_row_major_bound(source_coord(c, h.shape), h.shape);
        let y = g.get(source_coord(c, g.shape));
        let z = h.get(source_coord(c, h.shape));
        assert(zg.get(source_coord(c, g.shape)) == zero);
        assert(zh.get(source_coord(c, h.shape)) == zero);
        assert(left.data[k] == zero.sum(y).sum(z));
        assert(right.data[k] == zero.sum(z).sum(y));
        assert(zero.sum(y).sum(z) == zero.sum(y.sum(z)));
        assert(y.sum(z) == z.sum(y));
        assert(zero.sum(z).sum(y) == zero.sum(z.sum(y)));
    }
    assert(left.data =~= right.data);
}

/// The total of a name after one more gradient is well formed, densely
/// packed, and fits the bound of the name.
proof fn lemma_step_fits<T: Scalar>(base: TensorView<T>, g: TensorView<T>, d: Seq<usize>)
    requires
        base.wf(),
        g.wf(),
        extent(d) <= usize::MAX,
        fits(base.shape, d),
        fits(g.shape, d),
    ensures
        base.plus(g).wf(),
        base.plus(g).contiguous(),
        fits(base.plus(g).shape, d),
{
    if volume(d) > 0 {
        lemma_plus_fits(base, g, d);
    } else {
        lemma_plus_shape(base, g);
    }
}

/// Order independence. Adding up the same gradients in two different
/// orders gives the same total for every name, provided that addition of
/// scalars is commutative and associative and that the gradients of each
/// name fit one bound: they all have one shape, or they are not empty and
/// broadcast to one shape.
pub proof fn lemma_accumulation_order<T: Scalar>(
    first: Seq<Contribution<T>>,
    second: Seq<Contribution<T>>,
    dims: spec_fn(Seq<char>) -> Seq<usize>,
)
    requires
        first.to_multiset() == second.to_multiset(),
        bounded_by(first, dims),
        sum_is_commutative::<T>(),
        sum_is_associative::<T>(),
    ensures
        sum_up(first, Map::empty()) == sum_up(second, Map::empty()),
{
    let f = |m: Totals<T>, x: Contribution<T>| contribute(m, x.0, x.1);
    let inv = |m: Totals<T>| settled(m, dims);
    let ok = |x: Contribution<T>|
        x.1.wf() && fits(x.1.shape, dims(x.0)) && extent(dims(x.0)) <= usize::MAX;
    let start = Map::<Seq<char>, TensorView<T>>::empty();
    assert(inv(start));
    assert(all_ok(first, ok));
    assert forall|b: Totals<T>, x: Contribution<T>| inv(b) && ok(x) implies inv(
        #[trigger] f(b, x),
    ) by {
        let base = if b.contains_key(x.0) {
            b[x.0]
        } else {
            TensorView::filled(x.1.shape, T::of_count(0))
        };
        lemma_zero_wf(x.1);
        lemma_step_fits(base, x.1, dims(x.0));
        let next = f(b, x);
        assert forall|name: Seq<char>| #[trigger] next.contains_key(name) implies next[name].wf()
            && next[name].contiguous() && fits(next[name].shape, dims(name)) by {
            if name != x.0 {
                assert(b.contains_key(name));
            }
        }
    }
    assert forall|b: Totals<T>, x: Contribution<T>, y: Contribution<T>|
        inv(b) && ok(x) && ok(y) implies #[trigger] f(f(b, x), y) == f(f(b, y), x) by {
        lemma_zero_wf(x.1);
        lemma_zero_wf(y.1);
        if x.0 == y.0 {
            let d = dims(x.0);
            if b.contains_key(x.0) {
                let base = b[x.0];
                if volume(d) > 0 {
                    lemma_plus_exchanges_within(base, x.1, y.1, d);
                } else {
                    lemma_plus_exchanges(base, x.1, y.1);
                }
            } else {
                let zx = TensorView::filled(x.1.shape, T::of_count(0));
                let zy = TensorView::filled(y.1.shape, T::of_count(0));
                if volume(d) > 0 {
                    lemma_first_sight_exchanges(x.1, y.1, d);
                } else {
                    assert(zx == zy);
                    lemma_plus_exchanges(zx, x.1, y.1);
                }
            }
        }
        assert(f(f(b, x), y) =~= f(f(b, y), x));
    }
    lemma_fold_any_order(first, second, f, start, inv, ok);
}

/// Order independence of the walk. Two traces that hold the same gradients
/// at their leaves, in whatever arrangement, give the same total for every
/// name, under the conditions of `lemma_accumulation_order`.
pub proof fn lemma_traversal_order<T: Scalar>(
    first: Trace<T>,
    second: Trace<T>,
    dims: spec_fn(Seq<char>) -> Seq<usize>,
)
    requires
        first.leaves().to_multiset() == second.leaves().to_multiset(),
        bounded_by(first.leaves(), dims),
        sum_is_commutative::<T>(),
        sum_is_associative::<T>(),
    ensures
        first.accumulate(Map::empty()) == second.accumulate(Map::empty()),
{
    lemma_accumulate_sums_leaves(first, Map::empty());
    lemma_accumulate_sums_leaves(second, Map::empty());
    lemma_accumulation_order(first.leaves(), second.leaves(), dims);
}

/// Equal shares. For a rank-0 upstream gradient, the gradient that the mean
/// hands to a non-empty operand has the operand's shape, and every element
/// of it is the upstream value divided by the number of elements that the
/// operation kept, times one.
pub proof fn lemma_mean_shares_equally<T: Scalar>(
    op: MeanOp,
    upstream: TensorView<T>,
    arg: TensorView<T>,
    k: int,
)
    requires
        upstream.wf(),
        upstream.shape.len() == 0,
        arg.wf(),
        0 <= k < volume(arg.shape),
    ensures
        ReduceOp::<T>::grad(&op, upstream, arg).shape == arg.shape,
        ReduceOp::<T>::grad(&op, upstream, arg).data.len() == volume(arg.shape),
        ReduceOp::<T>::grad(&op, upstream, arg).data[k] == upstream.data[0].quotient(
            T::of_count(op.input_n_elements),
        ).product(T::of_count(1)),
{
    let none = Seq::<usize>::empty();
    let s = arg.shape;
    let n = count::<T>(op.input_n_elements);
    let share = upstream.over(n);
    let ones = TensorView::filled(s, T::of_count(1));
    assert(upstream.shape =~= none);
    assert(broadcast_shape(none, none) =~= none);
    assert(unravel(0, none) =~= none);
    assert(source_coord(none, none) =~= none);
    assert(share.data[0] == upstream.get(none).quotient(n.get(none)));
    assert(upstream.get(none) == upstream.data[0]);
    assert(n.get(none) == T::of_count(op.input_n_elements));
    lemma_volume_positive(s);
    assert(broadcast_shape(none, s) =~= s);
    let c = unravel(k as nat, s);
    lemma_unravel_in_bounds(k as nat, s);
    assert(source_coord(c, none) =~= none);
    assert(source_coord(c, s) =~= c);
    lemma_offset_row_major_bound(c, s);
    assert(share.get(none) == share.data[0]);
}

} // verus!
