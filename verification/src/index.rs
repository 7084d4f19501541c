//! Arithmetic on shapes, strides and coordinates.

use vstd::prelude::*;
use crate::shape::{
    aligned_dim, broadcast_dim, broadcast_shape, compatible, extent, joint_rank, lemma_extent_skip,
    lemma_volume_skip, offset, row_major, source_coord, unravel, volume,
};
use crate::tensor::{get_broadcast_directions, max};

verus! {

/// The row-major strides of a shape: each entry is the product of the sizes
/// that follow it.
pub fn get_postfix_prod(shape: &Vec<usize>) -> (strides: Vec<usize>)
    requires
        extent(shape@) <= usize::MAX,
    ensures
        strides@ == row_major(shape@),
{
    let rank = shape.len();
    let mut out: Vec<usize> = Vec::new();
    let mut filled: usize = 0;
    while filled < rank
        invariant
            filled <= rank,
            out.len() == filled,
        decreases rank - filled,
    {
        out.push(0);
        filled += 1;
    }
    let mut n: usize = 1;
    let mut i: usize = rank;
    assert(shape@.skip(rank as int) =~= Seq::<usize>::empty());
    while i > 0
        invariant
            i <= rank,
            rank == shape.len(),
            out.len() == rank,
            extent(shape@) <= usize::MAX,
            n == volume(shape@.skip(i as int)),
            forall|j: int| i <= j < rank ==> out@[j] == volume(shape@.skip(j + 1)),
        decreases i,
    {
        i -= 1;
        out.set(i, n);
        proof {
            lemma_volume_skip(shape@, i as int);
            lemma_extent_skip(shape@, i as int);
        }
        n = shape[i] * n;
    }
    assert(out@ =~= row_major(shape@));
    out
}

/// The number of coordinates of a shape.
pub fn volume_of(shape: &Vec<usize>) -> (n: usize)
    requires
        extent(shape@) <= usize::MAX,
    ensures
        n == volume(shape@),
{
    let rank = shape.len();
    let mut n: usize = 1;
    let mut i: usize = rank;
    assert(shape@.skip(rank as int) =~= Seq::<usize>::empty());
    while i > 0
        invariant
            i <= rank,
            rank == shape.len(),
            extent(shape@) <= usize::MAX,
            n == volume(shape@.skip(i as int)),
        decreases i,
    {
        i -= 1;
        proof {
            lemma_volume_skip(shape@, i as int);
            lemma_extent_skip(shape@, i as int);
        }
        n = shape[i] * n;
    }
    assert(shape@.skip(0) =~= shape@);
    n
}

/// The flat position of a coordinate under the given strides, or `None` where
/// it does not fit in a machine word.
pub fn flat_idx(indices: &Vec<usize>, stride: &Vec<usize>) -> (pos: Option<usize>)
    ensures
        match pos {
            Some(p) => p == offset(indices@, stride@),
            None => offset(indices@, stride@) > usize::MAX,
        },
{
    let n = if indices.len() < stride.len() {
        indices.len()
    } else {
        stride.len()
    };
    let mut acc: usize = 0;
    let mut i: usize = 0;
    assert(indices@.skip(0) =~= indices@ && stride@.skip(0) =~= stride@);
    while i < n
        invariant
            i <= n,
            n <= indices.len(),
            n <= stride.len(),
            n == indices.len() || n == stride.len(),
            acc + offset(indices@.skip(i as int), stride@.skip(i as int)) == offset(
                indices@,
                stride@,
            ),
        decreases n - i,
    {
        proof {
            assert(indices@.skip(i as int).skip(1) =~= indices@.skip(i + 1));
            assert(stride@.skip(i as int).skip(1) =~= stride@.skip(i + 1));
            assert(offset(indices@.skip(i as int), stride@.skip(i as int)) == (indices@[i as int]
                * stride@[i as int]) as nat + offset(indices@.skip(i + 1), stride@.skip(i + 1)));
        }
        let term = match indices[i].checked_mul(stride[i]) {
            Some(t) => t,
            None => {
                return None;
            },
        };
        acc = match acc.checked_add(term) {
            Some(s) => s,
            None => {
                return None;
            },
        };
        i += 1;
    }
    Some(acc)
}

/// The coordinate at flat position `k` of a densely packed tensor.
pub fn unravel_index(k: usize, shape: &Vec<usize>, strides: &Vec<usize>) -> (coord: Vec<usize>)
    requires
        strides@ == row_major(shape@),
        extent(shape@) <= usize::MAX,
        k < volume(shape@),
    ensures
        coord@ == unravel(k as nat, shape@),
{
    let rank = shape.len();
    let mut coord: Vec<usize> = Vec::new();
    let mut rem: usize = k;
    let mut i: usize = 0;
    assert(shape@.skip(0) =~= shape@);
    while i < rank
        invariant
            i <= rank,
            rank == shape.len(),
            strides@ == row_major(shape@),
            extent(shape@) <= usize::MAX,
            coord.len() == i,
            rem < volume(shape@.skip(i as int)),
            unravel(k as nat, shape@) == coord@.add(unravel(rem as nat, shape@.skip(i as int))),
        decreases rank - i,
    {
        let ghost rest = shape@.skip(i as int);
        let ghost inner = volume(shape@.skip(i + 1));
        proof {
            lemma_volume_skip(shape@, i as int);
            lemma_extent_skip(shape@, i + 1);
            assert(rest.skip(1) =~= shape@.skip(i + 1));
            assert(inner > 0) by (nonlinear_arith)
                requires
                    rem < shape@[i as int] as nat * inner,
            ;
            assert(strides@[i as int] == inner);
        }
        let q = rem / strides[i];
        let next = rem % strides[i];
        proof {
            assert(unravel(rem as nat, rest) == seq![(rem as nat / inner) as usize].add(
                unravel(rem as nat % inner, rest.skip(1)),
            ));
            assert(coord@.add(unravel(rem as nat, rest)) =~= coord@.push(q).add(
                unravel(next as nat, shape@.skip(i + 1)),
            ));
        }
        coord.push(q);
        rem = next;
        i += 1;
    }
    assert(shape@.skip(rank as int) =~= Seq::<usize>::empty());
    assert(coord@.add(Seq::<usize>::empty()) =~= coord@);
    coord
}

/// The coordinate of an operand of the given shape that feeds an output
/// coordinate.
pub fn source_of(coord: &Vec<usize>, shape: &Vec<usize>) -> (src: Vec<usize>)
    requires
        shape.len() <= coord.len(),
    ensures
        src@ == source_coord(coord@, shape@),
{
    let rank = shape.len();
    let lead = coord.len() - rank;
    let mut src: Vec<usize> = Vec::new();
    let mut i: usize = 0;
    while i < rank
        invariant
            i <= rank,
            rank == shape.len(),
            lead == coord.len() - rank,
            src.len() == i,
            forall|j: int| 0 <= j < i ==> src@[j] == source_coord(coord@, shape@)[j],
        decreases rank - i,
    {
        if shape[i] == 1 {
            src.push(0);
        } else {
            src.push(coord[i + lead]);
        }
        i += 1;
    }
    assert(src@ =~= source_coord(coord@, shape@));
    src
}

/// The joint shape of two shapes: on each aligned axis the larger size.
pub fn joint_shape(left: &Vec<usize>, right: &Vec<usize>) -> (joint: Vec<usize>)
    ensures
        joint@ == broadcast_shape(left@, right@),
{
    let rank = max((left.len(), right.len()));
    let pad_l = rank - left.len();
    let pad_r = rank - right.len();
    let mut joint: Vec<usize> = Vec::new();
    let mut axis: usize = 0;
    while axis < rank
        invariant
            axis <= rank,
            rank == joint_rank(left@, right@),
            pad_l == rank - left.len(),
            pad_r == rank - right.len(),
            joint.len() == axis,
            forall|a: int| 0 <= a < axis ==> joint@[a] == broadcast_dim(left@, right@, a),
        decreases rank - axis,
    {
        let dim_l = if axis < pad_l {
            1
        } else {
            left[axis - pad_l]
        };
        let dim_r = if axis < pad_r {
            1
        } else {
            right[axis - pad_r]
        };
        assert(dim_l == aligned_dim(left@, rank as nat, axis as int));
        assert(dim_r == aligned_dim(right@, rank as nat, axis as int));
        joint.push(max((dim_l, dim_r)));
        axis += 1;
    }
    assert(joint@ =~= broadcast_shape(left@, right@));
    joint
}

/// Whether two shapes can be combined elementwise: no aligned axis clashes,
/// the joint shape can be addressed, and a non-empty result draws on
/// non-empty operands.
pub fn shapes_compatible(left: &Vec<usize>, right: &Vec<usize>) -> (ok: bool)
    requires
        extent(left@) <= usize::MAX,
        extent(right@) <= usize::MAX,
    ensures
        ok == compatible(left@, right@),
{
    if get_broadcast_directions(left.clone(), right.clone()).is_none() {
        return false;
    }
    let joint = joint_shape(left, right);
    if !shape_is_addressable(&joint) {
        return false;
    }
    volume_of(&joint) == 0 || (volume_of(left) > 0 && volume_of(right) > 0)
}

/// Whether the extent of a shape fits in a machine word.
pub fn shape_is_addressable(shape: &Vec<usize>) -> (ok: bool)
    ensures
        ok == (extent(shape@) <= usize::MAX),
{
    let rank = shape.len();
    let mut n: usize = 1;
    let mut i: usize = rank;
    assert(shape@.skip(rank as int) =~= Seq::<usize>::empty());
    while i > 0
        invariant
            i <= rank,
            rank == shape.len(),
            n == extent(shape@.skip(i as int)),
        decreases i,
    {
        i -= 1;
        proof {
            assert(shape@.skip(i as int).skip(1) =~= shape@.skip(i + 1));
            lemma_extent_skip(shape@, i as int);
        }
        if shape[i] != 0 {
            n = match shape[i].checked_mul(n) {
                Some(m) => m,
                None => {
                    return false;
                },
            };
        }
    }
    assert(shape@.skip(0) =~= shape@);
    true
}

} // verus!
