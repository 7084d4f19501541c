//! The mathematical content of a tensor and of the operations on tensors.

use vstd::prelude::*;
use crate::scalar::Scalar;
use crate::shape::{
    broadcast_shape, extent, in_bounds, lemma_offset_row_major_bound, lemma_unravel_offset, offset,
    row_major, source_coord, swapped, unravel, volume,
};

verus! {

/// The mathematical content of a tensor: its flat buffer, the size of each
/// axis, and the distance in the buffer between neighbours along each axis.
pub struct TensorView<T> {
    pub data: Seq<T>,
    pub shape: Seq<usize>,
    pub stride: Seq<usize>,
}

impl<T> TensorView<T> {
    /// There is one stride per axis, the buffer holds one element per
    /// coordinate, and every in-bounds coordinate addresses the buffer.
    pub open spec fn wf(self) -> bool {
        &&& self.shape.len() == self.stride.len()
        &&& volume(self.shape) == self.data.len()
        &&& extent(self.shape) <= usize::MAX
        &&& forall|coord: Seq<usize>|
            in_bounds(coord, self.shape) ==> #[trigger] offset(coord, self.stride)
                < self.data.len()
    }

    /// The element at a coordinate.
    pub open spec fn get(self, coord: Seq<usize>) -> T {
        self.data[offset(coord, self.stride) as int]
    }

    /// The buffer is densely packed in row-major order.
    pub open spec fn contiguous(self) -> bool {
        self.stride == row_major(self.shape)
    }

    /// The densely packed tensor of the given shape and buffer.
    pub open spec fn dense(shape: Seq<usize>, data: Seq<T>) -> TensorView<T> {
        TensorView { data, shape, stride: row_major(shape) }
    }

    /// The same buffer read with two axes exchanged.
    pub open spec fn transposed(self, a: int, b: int) -> TensorView<T> {
        TensorView {
            data: self.data,
            shape: swapped(self.shape, a, b),
            stride: swapped(self.stride, a, b),
        }
    }

    /// The element of `self` that feeds flat position `k` of a densely packed
    /// result of shape `joint`.
    pub open spec fn source(self, joint: Seq<usize>, k: int) -> T {
        self.get(source_coord(unravel(k as nat, joint), self.shape))
    }

    /// The broadcast combination of two tensors under a binary function:
    /// densely packed, of the joint shape, each element computed from the
    /// source elements of its coordinate.
    pub open spec fn zip_with(self, rhs: TensorView<T>, f: spec_fn(T, T) -> T) -> TensorView<T> {
        let joint = broadcast_shape(self.shape, rhs.shape);
        TensorView::dense(
            joint,
            Seq::new(volume(joint), |k: int| f(self.source(joint, k), rhs.source(joint, k))),
        )
    }

    /// The elements in row-major order of their coordinates.
    pub open spec fn elements(self) -> Seq<T> {
        Seq::new(volume(self.shape), |k: int| self.get(unravel(k as nat, self.shape)))
    }

    /// The image of a tensor under a unary function: densely packed, of the
    /// same shape.
    pub open spec fn map_values(self, f: spec_fn(T) -> T) -> TensorView<T> {
        TensorView::dense(
            self.shape,
            Seq::new(volume(self.shape), |k: int| f(self.get(unravel(k as nat, self.shape)))),
        )
    }
}

/// The axis that a signed index names: a negative index counts from the end.
pub open spec fn axis_of(rank: nat, idx: int) -> int {
    if idx < 0 {
        rank + idx
    } else {
        idx
    }
}

/// The sum of a sequence of scalars, taken from the left, starting at zero.
pub open spec fn sum_of<T: Scalar>(values: Seq<T>) -> T
    decreases values.len(),
{
    if values.len() == 0 {
        T::of_count(0)
    } else {
        sum_of(values.drop_last()).sum(values.last())
    }
}

impl<T: Scalar> TensorView<T> {
    /// The densely packed tensor of the given shape that holds `value`
    /// everywhere.
    pub open spec fn filled(shape: Seq<usize>, value: T) -> TensorView<T> {
        TensorView::dense(shape, Seq::new(volume(shape), |k: int| value))
    }

    /// The broadcast elementwise sum.
    pub open spec fn plus(self, rhs: TensorView<T>) -> TensorView<T> {
        self.zip_with(rhs, |a: T, b: T| a.sum(b))
    }

    /// The broadcast elementwise difference.
    pub open spec fn minus(self, rhs: TensorView<T>) -> TensorView<T> {
        self.zip_with(rhs, |a: T, b: T| a.difference(b))
    }

    /// The broadcast elementwise product.
    pub open spec fn times(self, rhs: TensorView<T>) -> TensorView<T> {
        self.zip_with(rhs, |a: T, b: T| a.product(b))
    }

    /// The broadcast elementwise quotient.
    pub open spec fn over(self, rhs: TensorView<T>) -> TensorView<T> {
        self.zip_with(rhs, |a: T, b: T| a.quotient(b))
    }

    /// Every element multiplied by itself.
    pub open spec fn squared(self) -> TensorView<T> {
        self.map_values(|a: T| a.product(a))
    }

    /// The mask that holds one where an element exceeds `threshold` and zero
    /// elsewhere.
    pub open spec fn above(self, threshold: T) -> TensorView<T> {
        self.map_values(
            |a: T|
                if a.exceeds(threshold) {
                    T::of_count(1)
                } else {
                    T::of_count(0)
                },
        )
    }

    /// Every element that does not exceed zero replaced by its product with
    /// zero.
    pub open spec fn rectified(self) -> TensorView<T> {
        self.above(T::of_count(0)).times(self)
    }

    /// The entry of a matrix in row `i`, column `j`.
    pub open spec fn entry(self, i: usize, j: usize) -> T {
        self.get(seq![i, j])
    }

    /// The sum, from the left and starting at zero, of the first `n` products
    /// of an entry of row `i` of `self` with the entry of column `j` of `rhs`
    /// that it meets.
    pub open spec fn dot(self, rhs: TensorView<T>, i: usize, j: usize, n: nat) -> T
        decreases n,
    {
        if n == 0 {
            T::of_count(0)
        } else {
            let k = (n - 1) as usize;
            self.dot(rhs, i, j, (n - 1) as nat).sum(
                self.entry(i, k).product(rhs.entry(k, j)),
            )
        }
    }

    /// Two matrices can be multiplied: both have rank 2, the columns of the
    /// left match the rows of the right, and the result can be addressed.
    pub open spec fn matmul_defined(self, rhs: TensorView<T>) -> bool {
        &&& self.shape.len() == 2
        &&& rhs.shape.len() == 2
        &&& self.shape[1] == rhs.shape[0]
        &&& extent(seq![self.shape[0], rhs.shape[1]]) <= usize::MAX
    }

    /// The dense matrix product.
    pub open spec fn matmul(self, rhs: TensorView<T>) -> TensorView<T> {
        let h = self.shape[0];
        let w = rhs.shape[1];
        TensorView::dense(
            seq![h, w],
            Seq::new(
                h as nat * w as nat,
                |p: int|
                    self.dot(
                        rhs,
                        (p / w as int) as usize,
                        (p % w as int) as usize,
                        self.shape[1] as nat,
                    ),
            ),
        )
    }

    /// The rank-0 tensor that holds the sum of the buffer divided by the
    /// number of coordinates.
    pub open spec fn averaged(self) -> TensorView<T> {
        TensorView::dense(
            Seq::empty(),
            seq![sum_of(self.data).quotient(T::of_count(volume(self.shape) as usize))],
        )
    }
}

/// At every coordinate of the joint shape a broadcast combination holds the
/// function's value on the two source elements of that coordinate.
pub proof fn lemma_zip_with_get<T>(
    l: TensorView<T>,
    r: TensorView<T>,
    f: spec_fn(T, T) -> T,
    coord: Seq<usize>,
)
    requires
        in_bounds(coord, broadcast_shape(l.shape, r.shape)),
        extent(broadcast_shape(l.shape, r.shape)) <= usize::MAX,
    ensures
        l.zip_with(r, f).get(coord) == f(
            l.get(source_coord(coord, l.shape)),
            r.get(source_coord(coord, r.shape)),
        ),
{
    let joint = broadcast_shape(l.shape, r.shape);
    lemma_offset_row_major_bound(coord, joint);
    lemma_unravel_offset(coord, joint);
}

/// At every coordinate the image of a tensor holds the function's value on
/// the element there.
pub proof fn lemma_map_values_get<T>(t: TensorView<T>, f: spec_fn(T) -> T, coord: Seq<usize>)
    requires
        in_bounds(coord, t.shape),
        extent(t.shape) <= usize::MAX,
    ensures
        t.map_values(f).get(coord) == f(t.get(coord)),
{
    lemma_offset_row_major_bound(coord, t.shape);
    lemma_unravel_offset(coord, t.shape);
}

/// A densely packed tensor whose buffer matches its shape is well formed.
pub proof fn lemma_dense_wf<T>(shape: Seq<usize>, data: Seq<T>)
    requires
        volume(shape) == data.len(),
        extent(shape) <= usize::MAX,
    ensures
        TensorView::dense(shape, data).wf(),
{
    assert forall|coord: Seq<usize>| in_bounds(coord, shape) implies #[trigger] offset(
        coord,
        row_major(shape),
    ) < data.len() by {
        lemma_offset_row_major_bound(coord, shape);
    }
}

} // verus!
