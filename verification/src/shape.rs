//! Shapes, strides and the trailing-alignment broadcasting rule, as
//! specification functions.

use vstd::prelude::*;
use crate::tensor::BroadcastDir;

verus! {

/// The larger of the two ranks.
pub open spec fn joint_rank(left: Seq<usize>, right: Seq<usize>) -> nat {
    if left.len() > right.len() {
        left.len()
    } else {
        right.len()
    }
}

/// The size of `shape` on `axis` once it is right-aligned to `rank` axes;
/// missing leading axes have size 1.
pub open spec fn aligned_dim(shape: Seq<usize>, rank: nat, axis: int) -> usize {
    if axis < rank - shape.len() {
        1
    } else {
        shape[axis - (rank - shape.len())]
    }
}

/// The reconciliation of one axis, or `None` where the sizes clash.
pub open spec fn axis_direction(dim_l: usize, dim_r: usize) -> Option<BroadcastDir> {
    if dim_l == 1 && dim_r == 1 {
        Some(BroadcastDir::UnNeeded)
    } else if dim_l == 1 {
        Some(BroadcastDir::LTR)
    } else if dim_r == 1 {
        Some(BroadcastDir::RTL)
    } else if dim_l == dim_r {
        Some(BroadcastDir::UnNeeded)
    } else {
        None
    }
}

/// The reconciliation of two shapes on one axis of their joint rank.
pub open spec fn direction_at(left: Seq<usize>, right: Seq<usize>, axis: int) -> Option<
    BroadcastDir,
> {
    axis_direction(
        aligned_dim(left, joint_rank(left, right), axis),
        aligned_dim(right, joint_rank(left, right), axis),
    )
}

/// Two shapes are broadcastable when no aligned axis clashes.
pub open spec fn broadcastable(left: Seq<usize>, right: Seq<usize>) -> bool {
    forall|axis: int|
        0 <= axis < joint_rank(left, right) ==> (#[trigger] direction_at(
            left,
            right,
            axis,
        )).is_some()
}

/// The per-axis reconciliation of two broadcastable shapes.
pub open spec fn broadcast_directions(left: Seq<usize>, right: Seq<usize>) -> Seq<BroadcastDir> {
    Seq::new(joint_rank(left, right), |axis: int| direction_at(left, right, axis).unwrap())
}

/// The size of the joint shape on one axis: the larger of the two aligned sizes.
pub open spec fn broadcast_dim(left: Seq<usize>, right: Seq<usize>, axis: int) -> usize {
    let l = aligned_dim(left, joint_rank(left, right), axis);
    let r = aligned_dim(right, joint_rank(left, right), axis);
    if l > r {
        l
    } else {
        r
    }
}

/// The shape of the result of broadcasting two shapes against each other.
pub open spec fn broadcast_shape(left: Seq<usize>, right: Seq<usize>) -> Seq<usize> {
    Seq::new(joint_rank(left, right), |axis: int| broadcast_dim(left, right, axis))
}

/// The number of coordinates of a shape: the product of its sizes.
pub open spec fn volume(shape: Seq<usize>) -> nat
    decreases shape.len(),
{
    if shape.len() == 0 {
        1
    } else {
        shape[0] as nat * volume(shape.skip(1))
    }
}

/// The product of the sizes of a shape with every empty axis counted as 1.
/// It bounds the volume of every suffix of the shape and does not change
/// when axes are reordered.
pub open spec fn extent(shape: Seq<usize>) -> nat
    decreases shape.len(),
{
    if shape.len() == 0 {
        1
    } else {
        clamp(shape[0]) * extent(shape.skip(1))
    }
}

/// The size of an axis, with an empty axis counted as 1.
pub open spec fn clamp(d: usize) -> nat {
    if d == 0 {
        1
    } else {
        d as nat
    }
}

/// The strides of a densely packed, row-major tensor: each is the volume of
/// the axes that follow.
pub open spec fn row_major(shape: Seq<usize>) -> Seq<usize> {
    Seq::new(shape.len(), |i: int| volume(shape.skip(i + 1)) as usize)
}

/// A coordinate has one index per axis, each below the axis's size.
pub open spec fn in_bounds(coord: Seq<usize>, shape: Seq<usize>) -> bool {
    &&& coord.len() == shape.len()
    &&& forall|i: int| 0 <= i < shape.len() ==> coord[i] < shape[i]
}

/// The flat position of a coordinate: the sum of index times stride over the
/// axes that both sequences have.
pub open spec fn offset(coord: Seq<usize>, stride: Seq<usize>) -> nat
    decreases coord.len(),
{
    if coord.len() == 0 || stride.len() == 0 {
        0
    } else {
        (coord[0] * stride[0]) as nat + offset(coord.skip(1), stride.skip(1))
    }
}

/// The coordinate at flat position `k` of a row-major tensor.
pub open spec fn unravel(k: nat, shape: Seq<usize>) -> Seq<usize>
    decreases shape.len(),
{
    if shape.len() == 0 {
        Seq::empty()
    } else {
        let inner = volume(shape.skip(1));
        seq![(k / inner) as usize].add(unravel(k % inner, shape.skip(1)))
    }
}

/// The coordinate of an operand that feeds output coordinate `coord`: the
/// trailing axes of `coord`, with the index pinned to 0 on every axis where
/// the operand has size 1.
pub open spec fn source_coord(coord: Seq<usize>, shape: Seq<usize>) -> Seq<usize> {
    Seq::new(
        shape.len(),
        |i: int|
            if shape[i] == 1 {
                0usize
            } else {
                coord[i + (coord.len() - shape.len())]
            },
    )
}

pub proof fn lemma_volume_skip(shape: Seq<usize>, i: int)
    requires
        0 <= i < shape.len(),
    ensures
        volume(shape.skip(i)) == shape[i] as nat * volume(shape.skip(i + 1)),
{
    assert(shape.skip(i).skip(1) =~= shape.skip(i + 1));
}

pub proof fn lemma_volume_positive(shape: Seq<usize>)
    ensures
        volume(shape) > 0 <==> forall|i: int| 0 <= i < shape.len() ==> shape[i] > 0,
    decreases shape.len(),
{
    if shape.len() > 0 {
        let rest = shape.skip(1);
        lemma_volume_positive(rest);
        assert(volume(shape) > 0 <==> shape[0] > 0 && volume(rest) > 0) by (nonlinear_arith)
            requires
                volume(shape) == shape[0] as nat * volume(rest),
        ;
        if volume(shape) > 0 {
            assert forall|i: int| 0 <= i < shape.len() implies shape[i] > 0 by {
                if i > 0 {
                    assert(rest[i - 1] == shape[i]);
                }
            }
        } else {
            if forall|i: int| 0 <= i < shape.len() ==> shape[i] > 0 {
                assert forall|i: int| 0 <= i < rest.len() implies rest[i] > 0 by {
                    assert(rest[i] == shape[i + 1]);
                }
            }
        }
    }
}

pub proof fn lemma_extent_bounds(shape: Seq<usize>)
    ensures
        1 <= extent(shape),
        volume(shape) <= extent(shape),
        volume(shape) > 0 ==> volume(shape) == extent(shape),
    decreases shape.len(),
{
    if shape.len() > 0 {
        let rest = shape.skip(1);
        lemma_extent_bounds(rest);
        let d = shape[0] as nat;
        let c = clamp(shape[0]);
        let v = volume(rest);
        let e = extent(rest);
        assert(d * v <= c * e && 1 <= c * e) by (nonlinear_arith)
            requires
                v <= e,
                1 <= e,
                d <= c,
                1 <= c,
        ;
        if d * v > 0 {
            assert(v > 0 && d > 0) by (nonlinear_arith)
                requires
                    d * v > 0,
            ;
        }
    }
}

pub proof fn lemma_extent_skip(shape: Seq<usize>, i: int)
    requires
        0 <= i <= shape.len(),
    ensures
        extent(shape.skip(i)) <= extent(shape),
        volume(shape.skip(i)) <= extent(shape),
    decreases i,
{
    lemma_extent_bounds(shape.skip(i));
    if i == 0 {
        assert(shape.skip(0) =~= shape);
    } else {
        lemma_extent_skip(shape, i - 1);
        let s = shape.skip(i - 1);
        assert(s.skip(1) =~= shape.skip(i));
        lemma_extent_bounds(shape.skip(i));
        let d = clamp(s[0]);
        let e = extent(shape.skip(i));
        assert(e <= d * e) by (nonlinear_arith)
            requires
                d > 0,
        ;
    }
}

pub proof fn lemma_row_major_skip(shape: Seq<usize>)
    requires
        shape.len() > 0,
    ensures
        row_major(shape).skip(1) == row_major(shape.skip(1)),
        row_major(shape)[0] == volume(shape.skip(1)) as usize,
{
    assert forall|i: int| 0 <= i < shape.len() - 1 implies row_major(shape).skip(1)[i]
        == row_major(shape.skip(1))[i] by {
        assert(shape.skip(1).skip(i + 1) =~= shape.skip(i + 2));
    }
    assert(row_major(shape).skip(1) =~= row_major(shape.skip(1)));
}

/// In a row-major tensor every in-bounds coordinate lies below the volume.
pub proof fn lemma_offset_row_major_bound(coord: Seq<usize>, shape: Seq<usize>)
    requires
        in_bounds(coord, shape),
        extent(shape) <= usize::MAX,
    ensures
        offset(coord, row_major(shape)) < volume(shape),
    decreases shape.len(),
{
    if shape.len() > 0 {
        let rest = shape.skip(1);
        lemma_row_major_skip(shape);
        lemma_extent_skip(shape, 1);
        assert(in_bounds(coord.skip(1), rest)) by {
            assert forall|i: int| 0 <= i < rest.len() implies coord.skip(1)[i] < rest[i] by {
                assert(coord.skip(1)[i] == coord[i + 1]);
            }
        }
        lemma_offset_row_major_bound(coord.skip(1), rest);
        let c = coord[0] as nat;
        let d = shape[0] as nat;
        let v = volume(rest);
        let r = offset(coord.skip(1), row_major(rest));
        assert(c * v + r < d * v) by (nonlinear_arith)
            requires
                c < d,
                r < v,
        ;
    }
}

/// A position below `d * v` has a quotient by `v` that lies below `d`.
pub proof fn lemma_quotient_below(k: nat, d: nat, v: nat)
    requires
        k < d * v,
    ensures
        v > 0,
        k / v < d,
{
    assert(v > 0) by (nonlinear_arith)
        requires
            k < d * v,
    ;
    vstd::arithmetic::div_mod::lemma_fundamental_div_mod(k as int, v as int);
    let q = k / v;
    if q >= d {
        assert(v * q >= d * v) by (nonlinear_arith)
            requires
                q >= d,
                v > 0,
        ;
    }
}

pub proof fn lemma_unravel_in_bounds(k: nat, shape: Seq<usize>)
    requires
        k < volume(shape),
        extent(shape) <= usize::MAX,
    ensures
        in_bounds(unravel(k, shape), shape),
    decreases shape.len(),
{
    if shape.len() > 0 {
        let rest = shape.skip(1);
        let v = volume(rest);
        let d = shape[0] as nat;
        lemma_extent_skip(shape, 1);
        lemma_quotient_below(k, d, v);
        assert(k % v < v);
        lemma_unravel_in_bounds(k % v, rest);
        let u = unravel(k, shape);
        assert forall|i: int| 0 <= i < shape.len() implies u[i] < shape[i] by {
            if i > 0 {
                assert(u[i] == unravel(k % v, rest)[i - 1]);
                assert(rest[i - 1] == shape[i]);
            }
        }
    }
}

/// Unravelling a flat position and taking the row-major offset of the result
/// gives the position back.
pub proof fn lemma_offset_unravel(k: nat, shape: Seq<usize>)
    requires
        k < volume(shape),
        extent(shape) <= usize::MAX,
    ensures
        offset(unravel(k, shape), row_major(shape)) == k,
    decreases shape.len(),
{
    if shape.len() > 0 {
        let rest = shape.skip(1);
        let v = volume(rest);
        let d = shape[0] as nat;
        lemma_extent_skip(shape, 1);
        lemma_row_major_skip(shape);
        lemma_quotient_below(k, d, v);
        lemma_offset_unravel(k % v, rest);
        let u = unravel(k, shape);
        let q = k / v;
        assert(u.skip(1) =~= unravel(k % v, rest));
        assert(u[0] == q);
        assert(row_major(shape)[0] == v);
        assert(q * v + k % v == k) by (nonlinear_arith)
            requires
                v > 0,
                q == k / v,
        ;
        assert(offset(u, row_major(shape)) == (u[0] * row_major(shape)[0]) as nat + offset(
            u.skip(1),
            row_major(shape).skip(1),
        ));
    }
}

/// Taking the row-major offset of an in-bounds coordinate and unravelling it
/// gives the coordinate back.
pub proof fn lemma_unravel_offset(coord: Seq<usize>, shape: Seq<usize>)
    requires
        in_bounds(coord, shape),
        extent(shape) <= usize::MAX,
    ensures
        unravel(offset(coord, row_major(shape)), shape) == coord,
    decreases shape.len(),
{
    if shape.len() == 0 {
        assert(coord =~= Seq::empty());
    } else {
        let rest = shape.skip(1);
        let v = volume(rest);
        lemma_extent_skip(shape, 1);
        lemma_row_major_skip(shape);
        assert(in_bounds(coord.skip(1), rest)) by {
            assert forall|i: int| 0 <= i < rest.len() implies coord.skip(1)[i] < rest[i] by {
                assert(coord.skip(1)[i] == coord[i + 1]);
            }
        }
        lemma_offset_row_major_bound(coord.skip(1), rest);
        lemma_unravel_offset(coord.skip(1), rest);
        let c = coord[0] as nat;
        let r = offset(coord.skip(1), row_major(rest));
        let k = offset(coord, row_major(shape));
        assert(k == c * v + r);
        assert((c * v + r) / v == c && (c * v + r) % v == r) by (nonlinear_arith)
            requires
                r < v,
        ;
        assert(unravel(k, shape) =~= coord);
    }
}

/// Broadcasting two shapes is defined when the joint shape can be addressed
/// and a non-empty result draws on non-empty operands.
pub open spec fn broadcast_defined(left: Seq<usize>, right: Seq<usize>) -> bool {
    &&& extent(broadcast_shape(left, right)) <= usize::MAX
    &&& volume(broadcast_shape(left, right)) > 0 ==> volume(left) > 0 && volume(right) > 0
}

/// Two shapes can be combined elementwise: they are broadcastable and the
/// result is defined.
pub open spec fn compatible(left: Seq<usize>, right: Seq<usize>) -> bool {
    broadcastable(left, right) && broadcast_defined(left, right)
}

/// On one axis the joint size is the larger of the two aligned sizes, which
/// are equal unless one of them is 1.
spec fn axis_joins(own: Seq<usize>, other: Seq<usize>, joint: Seq<usize>, axis: int) -> bool {
    let a = aligned_dim(own, joint.len(), axis);
    let b = aligned_dim(other, joint.len(), axis);
    &&& joint[axis] == if a > b {
        a
    } else {
        b
    }
    &&& (a == 1 || b == 1 || a == b)
}

proof fn lemma_source_in_bounds_one(
    coord: Seq<usize>,
    own: Seq<usize>,
    other: Seq<usize>,
    joint: Seq<usize>,
)
    requires
        volume(own) > 0,
        in_bounds(coord, joint),
        joint.len() == joint_rank(own, other),
        forall|axis: int| 0 <= axis < joint.len() ==> #[trigger] axis_joins(own, other, joint, axis),
    ensures
        in_bounds(source_coord(coord, own), own),
{
    lemma_volume_positive(own);
    let src = source_coord(coord, own);
    assert forall|i: int| 0 <= i < own.len() implies src[i] < own[i] by {
        let axis = i + (joint.len() - own.len());
        assert(axis_joins(own, other, joint, axis));
        assert(aligned_dim(own, joint.len(), axis) == own[i]);
        assert(coord[axis] < joint[axis]);
    }
}

/// Every coordinate of the joint shape has a source coordinate within each
/// operand, provided the operands are not empty.
pub proof fn lemma_source_in_bounds(coord: Seq<usize>, left: Seq<usize>, right: Seq<usize>)
    requires
        broadcastable(left, right),
        volume(left) > 0,
        volume(right) > 0,
        in_bounds(coord, broadcast_shape(left, right)),
    ensures
        in_bounds(source_coord(coord, left), left),
        in_bounds(source_coord(coord, right), right),
{
    let joint = broadcast_shape(left, right);
    assert forall|axis: int| 0 <= axis < joint.len() implies #[trigger] axis_joins(
        left,
        right,
        joint,
        axis,
    ) by {
        assert(direction_at(left, right, axis).is_some());
    }
    assert forall|axis: int| 0 <= axis < joint.len() implies #[trigger] axis_joins(
        right,
        left,
        joint,
        axis,
    ) by {
        assert(direction_at(left, right, axis).is_some());
    }
    lemma_source_in_bounds_one(coord, left, right, joint);
    lemma_source_in_bounds_one(coord, right, left, joint);
}

/// A shape is broadcastable against itself, and the joint shape is the shape.
pub proof fn lemma_broadcast_same(shape: Seq<usize>)
    ensures
        broadcastable(shape, shape),
        broadcast_shape(shape, shape) == shape,
{
    assert(broadcast_shape(shape, shape) =~= shape);
}

/// A sequence with the entries at two positions exchanged.
pub open spec fn swapped(s: Seq<usize>, a: int, b: int) -> Seq<usize> {
    s.update(a, s[b]).update(b, s[a])
}

proof fn lemma_volume_remove(s: Seq<usize>, i: int)
    requires
        0 <= i < s.len(),
    ensures
        volume(s) == s[i] as nat * volume(s.remove(i)),
    decreases i,
{
    if i == 0 {
        assert(s.remove(0) =~= s.skip(1));
    } else {
        let rest = s.skip(1);
        lemma_volume_remove(rest, i - 1);
        assert(s.remove(i).skip(1) =~= rest.remove(i - 1));
        assert(s.remove(i)[0] == s[0]);
        let x = volume(rest.remove(i - 1));
        let d = s[0] as nat;
        let e = s[i] as nat;
        assert(d * (e * x) == e * (d * x)) by (nonlinear_arith);
    }
}

proof fn lemma_extent_remove(s: Seq<usize>, i: int)
    requires
        0 <= i < s.len(),
    ensures
        extent(s) == clamp(s[i]) * extent(s.remove(i)),
    decreases i,
{
    if i == 0 {
        assert(s.remove(0) =~= s.skip(1));
    } else {
        let rest = s.skip(1);
        lemma_extent_remove(rest, i - 1);
        assert(s.remove(i).skip(1) =~= rest.remove(i - 1));
        assert(s.remove(i)[0] == s[0]);
        let x = extent(rest.remove(i - 1));
        let d = clamp(s[0]);
        let e = clamp(s[i]);
        assert(d * (e * x) == e * (d * x)) by (nonlinear_arith);
    }
}

proof fn lemma_offset_remove(c: Seq<usize>, st: Seq<usize>, i: int)
    requires
        c.len() == st.len(),
        0 <= i < c.len(),
    ensures
        offset(c, st) == (c[i] * st[i]) as nat + offset(c.remove(i), st.remove(i)),
    decreases i,
{
    if i == 0 {
        assert(c.remove(0) =~= c.skip(1));
        assert(st.remove(0) =~= st.skip(1));
    } else {
        lemma_offset_remove(c.skip(1), st.skip(1), i - 1);
        assert(c.remove(i).skip(1) =~= c.skip(1).remove(i - 1));
        assert(st.remove(i).skip(1) =~= st.skip(1).remove(i - 1));
        assert(c.remove(i)[0] == c[0]);
        assert(st.remove(i)[0] == st[0]);
    }
}

/// Exchanging two axes changes neither the volume nor the extent of a shape.
pub proof fn lemma_swapped_shape(s: Seq<usize>, a: int, b: int)
    requires
        0 <= a < s.len(),
        0 <= b < s.len(),
    ensures
        volume(swapped(s, a, b)) == volume(s),
        extent(swapped(s, a, b)) == extent(s),
{
    let t = swapped(s, a, b);
    if a == b {
        assert(t =~= s);
    } else {
        let lo = if a < b {
            a
        } else {
            b
        };
        let hi = if a < b {
            b
        } else {
            a
        };
        lemma_volume_remove(s, lo);
        lemma_volume_remove(s.remove(lo), hi - 1);
        lemma_volume_remove(t, lo);
        lemma_volume_remove(t.remove(lo), hi - 1);
        lemma_extent_remove(s, lo);
        lemma_extent_remove(s.remove(lo), hi - 1);
        lemma_extent_remove(t, lo);
        lemma_extent_remove(t.remove(lo), hi - 1);
        assert(t.remove(lo).remove(hi - 1) =~= s.remove(lo).remove(hi - 1));
        let x = volume(s.remove(lo).remove(hi - 1));
        let y = extent(s.remove(lo).remove(hi - 1));
        let p = s[lo] as nat;
        let q = s[hi] as nat;
        assert(p * (q * x) == q * (p * x)) by (nonlinear_arith);
        let cp = clamp(s[lo]);
        let cq = clamp(s[hi]);
        assert(cp * (cq * y) == cq * (cp * y)) by (nonlinear_arith);
    }
}

/// Exchanging the same two positions in a coordinate and in the strides
/// leaves the flat position unchanged.
pub proof fn lemma_swapped_offset(c: Seq<usize>, st: Seq<usize>, a: int, b: int)
    requires
        c.len() == st.len(),
        0 <= a < c.len(),
        0 <= b < c.len(),
    ensures
        offset(swapped(c, a, b), swapped(st, a, b)) == offset(c, st),
{
    let tc = swapped(c, a, b);
    let ts = swapped(st, a, b);
    if a == b {
        assert(tc =~= c);
        assert(ts =~= st);
    } else {
        let lo = if a < b {
            a
        } else {
            b
        };
        let hi = if a < b {
            b
        } else {
            a
        };
        lemma_offset_remove(c, st, lo);
        lemma_offset_remove(c.remove(lo), st.remove(lo), hi - 1);
        lemma_offset_remove(tc, ts, lo);
        lemma_offset_remove(tc.remove(lo), ts.remove(lo), hi - 1);
        assert(tc.remove(lo).remove(hi - 1) =~= c.remove(lo).remove(hi - 1));
        assert(ts.remove(lo).remove(hi - 1) =~= st.remove(lo).remove(hi - 1));
    }
}

/// Exchanging two positions of an in-bounds coordinate gives a coordinate
/// within the shape with the same two axes exchanged.
pub proof fn lemma_swapped_in_bounds(c: Seq<usize>, shape: Seq<usize>, a: int, b: int)
    requires
        in_bounds(c, shape),
        0 <= a < c.len(),
        0 <= b < c.len(),
    ensures
        in_bounds(swapped(c, a, b), swapped(shape, a, b)),
        swapped(swapped(c, a, b), a, b) == c,
{
    assert(swapped(swapped(c, a, b), a, b) =~= c);
}

/// In a row-major matrix of `h` rows and `w` columns the entry in row `i`,
/// column `j` lies at flat position `i * w + j`, from which quotient and
/// remainder by `w` recover the row and the column.
pub proof fn lemma_matrix_offset(h: usize, w: usize, i: usize, j: usize)
    requires
        i < h,
        j < w,
        extent(seq![h, w]) <= usize::MAX,
    ensures
        volume(seq![h, w]) == h as nat * w as nat,
        offset(seq![i, j], row_major(seq![h, w])) == i as nat * w as nat + j as nat,
        (i as nat * w as nat + j as nat) / (w as nat) == i,
        (i as nat * w as nat + j as nat) % (w as nat) == j,
        (i as nat) * (w as nat) + (j as nat) < (h as nat) * (w as nat),
{
    let shape = seq![h, w];
    let coord = seq![i, j];
    lemma_volume_skip(shape, 0);
    lemma_volume_skip(shape, 1);
    assert(shape.skip(2) =~= Seq::<usize>::empty());
    assert(shape.skip(0) =~= shape);
    assert(volume(shape.skip(1)) == w as nat * 1);
    assert(in_bounds(coord, shape));
    lemma_offset_row_major_bound(coord, shape);
    lemma_extent_skip(shape, 1);
    lemma_extent_skip(shape, 2);
    let st = row_major(shape);
    assert(st[0] == w);
    assert(st[1] == 1);
    assert(coord.skip(1).skip(1) =~= Seq::<usize>::empty());
    assert(offset(coord.skip(1), st.skip(1)) == (coord.skip(1)[0] * st.skip(1)[0]) as nat + offset(
        coord.skip(1).skip(1),
        st.skip(1).skip(1),
    ));
    assert(offset(coord.skip(1).skip(1), st.skip(1).skip(1)) == 0);
    assert(coord.skip(1)[0] == j && st.skip(1)[0] == 1);
    let c1 = coord.skip(1)[0];
    let s1 = st.skip(1)[0];
    assert(c1 * s1 == j) by (nonlinear_arith)
        requires
            c1 == j,
            s1 == 1,
    ;
    assert(offset(coord.skip(1), st.skip(1)) == j);
    assert(offset(coord, st) == (i * w) as nat + offset(coord.skip(1), st.skip(1)));
    assert((i as nat * w as nat + j as nat) / (w as nat) == i && (i as nat * w as nat + j as nat)
        % (w as nat) == j) by (nonlinear_arith)
        requires
            j < w,
    ;
    assert((i as nat) * (w as nat) + (j as nat) < (h as nat) * (w as nat)) by (nonlinear_arith)
        requires
            i < h,
            j < w,
    ;
}

} // verus!
