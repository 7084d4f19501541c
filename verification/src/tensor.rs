//! Shaped, strided tensors and the operations on them.

use vstd::prelude::*;
use rand::distributions::{Distribution, Standard};
use rand::Rng;
use crate::index::{
    flat_idx, get_postfix_prod, joint_shape, shape_is_addressable, shapes_compatible, source_of,
    unravel_index, volume_of,
};
use crate::scalar::Scalar;
use crate::shape::{
    broadcast_defined, broadcast_directions, broadcast_shape, broadcastable, clamp, compatible,
    direction_at, extent, in_bounds, joint_rank, lemma_broadcast_same, lemma_matrix_offset,
    lemma_offset_row_major_bound, lemma_quotient_below, lemma_source_in_bounds,
    lemma_swapped_in_bounds, lemma_swapped_offset, lemma_swapped_shape, lemma_unravel_in_bounds,
    lemma_unravel_offset, lemma_volume_skip, offset, row_major, source_coord, swapped, unravel,
    volume,
};
use crate::view::{axis_of, lemma_dense_wf, sum_of, TensorView};

verus! {

/// How one aligned axis of two operands is reconciled.
#[derive(Clone, Copy, Debug, PartialEq, Eq, Structural)]
pub enum BroadcastDir {
    /// Both operands have the same size on this axis.
    UnNeeded,
    /// The left operand has size 1 on this axis and is repeated.
    LTR,
    /// The right operand has size 1 on this axis and is repeated.
    RTL,
}

/// Two shapes cannot be broadcast against each other, or a shape does not
/// match what an operation needs.
#[derive(Debug)]
pub struct ShapeError;

/// A coordinate does not address an element of a tensor.
#[derive(Debug)]
pub struct IndexError;

/// An n-dimensional buffer of elements. Values are immutable once built.
pub struct Tensor<T> {
    data: Vec<T>,
    shape: Vec<usize>,
    stride: Vec<usize>,
}

impl<T> View for Tensor<T> {
    type V = TensorView<T>;

    closed spec fn view(&self) -> TensorView<T> {
        TensorView { data: self.data@, shape: self.shape@, stride: self.stride@ }
    }
}

/// The larger of a pair.
pub fn max(pair: (usize, usize)) -> (m: usize)
    ensures
        m == if pair.0 > pair.1 {
            pair.0
        } else {
            pair.1
        },
{
    if pair.0 > pair.1 {
        pair.0
    } else {
        pair.1
    }
}

/// Reconciles two shapes axis by axis under trailing alignment. Returns
/// `None` exactly when some aligned pair of sizes differs with neither being 1.
pub fn get_broadcast_directions(shape_l: Vec<usize>, shape_r: Vec<usize>) -> (dirs: Option<
    Vec<BroadcastDir>,
>)
    ensures
        dirs.is_some() <==> broadcastable(shape_l@, shape_r@),
        dirs matches Some(d) ==> d@ == broadcast_directions(shape_l@, shape_r@),
{
    let rank = max((shape_l.len(), shape_r.len()));
    let pad_l = rank - shape_l.len();
    let pad_r = rank - shape_r.len();
    let mut out: Vec<BroadcastDir> = Vec::new();
    let mut axis: usize = 0;
    while axis < rank
        invariant
            axis <= rank,
            rank == joint_rank(shape_l@, shape_r@),
            pad_l == rank - shape_l.len(),
            pad_r == rank - shape_r.len(),
            out.len() == axis,
            forall|a: int|
                #![trigger out@[a]]
                #![trigger direction_at(shape_l@, shape_r@, a)]
                0 <= a < axis ==> direction_at(shape_l@, shape_r@, a) == Some(out@[a]),
        decreases rank - axis,
    {
        let dim_l = if axis < pad_l {
            1
        } else {
            shape_l[axis - pad_l]
        };
        let dim_r = if axis < pad_r {
            1
        } else {
            shape_r[axis - pad_r]
        };
        let dir = if dim_l == 1 && dim_r == 1 {
            BroadcastDir::UnNeeded
        } else if dim_l == 1 {
            BroadcastDir::LTR
        } else if dim_r == 1 {
            BroadcastDir::RTL
        } else if dim_l == dim_r {
            BroadcastDir::UnNeeded
        } else {
            assert(direction_at(shape_l@, shape_r@, axis as int).is_none());
            return None;
        };
        out.push(dir);
        axis += 1;
    }
    assert(out@ =~= broadcast_directions(shape_l@, shape_r@));
    Some(out)
}

/// Combines two tensors elementwise under the trailing-alignment
/// broadcasting rule. The result is densely packed and has the joint shape;
/// at every coordinate it holds a result of `func` on the two source
/// elements of that coordinate. Shapes that clash on some axis are an error.
///
/// Shapes that do not clash must be such that the joint shape can be
/// addressed and a non-empty result draws on non-empty operands;
/// `Tensor::compatible` tests all of this.
pub fn elementwise_broadcasted_map<T: Copy, F: Fn(T, T) -> T>(
    l: &Tensor<T>,
    r: &Tensor<T>,
    func: &F,
) -> (res: Result<Tensor<T>, ShapeError>)
    requires
        broadcastable(l@.shape, r@.shape) ==> broadcast_defined(l@.shape, r@.shape),
        forall|a: T, b: T| func.requires((a, b)),
    ensures
        res.is_ok() <==> broadcastable(l@.shape, r@.shape),
        res matches Ok(out) ==> {
            &&& out@.shape == broadcast_shape(l@.shape, r@.shape)
            &&& out@.contiguous()
            &&& out@.data.len() == volume(out@.shape)
            &&& forall|k: int|
                0 <= k < out@.data.len() ==> func.ensures(
                    (l@.source(out@.shape, k), r@.source(out@.shape, k)),
                    #[trigger] out@.data[k],
                )
            &&& forall|coord: Seq<usize>|
                in_bounds(coord, out@.shape) ==> func.ensures(
                    (
                        l@.get(source_coord(coord, l@.shape)),
                        r@.get(source_coord(coord, r@.shape)),
                    ),
                    #[trigger] out@.get(coord),
                )
        },
{
    let dirs = get_broadcast_directions(l.shape.clone(), r.shape.clone());
    if dirs.is_none() {
        return Err(ShapeError);
    }
    let shape = joint_shape(&l.shape, &r.shape);
    let stride = get_postfix_prod(&shape);
    let total = volume_of(&shape);
    let mut data: Vec<T> = Vec::new();
    let mut k: usize = 0;
    while k < total
        invariant
            k <= total,
            total == volume(shape@),
            shape@ == broadcast_shape(l@.shape, r@.shape),
            stride@ == row_major(shape@),
            broadcastable(l@.shape, r@.shape),
            broadcast_defined(l@.shape, r@.shape),
            forall|a: T, b: T| func.requires((a, b)),
            data.len() == k,
            forall|j: int|
                0 <= j < k ==> func.ensures(
                    (l@.source(shape@, j), r@.source(shape@, j)),
                    #[trigger] data@[j],
                ),
        decreases total - k,
    {
        let coord = unravel_index(k, &shape, &stride);
        proof {
            lemma_unravel_in_bounds(k as nat, shape@);
            lemma_source_in_bounds(coord@, l@.shape, r@.shape);
        }
        let from_l = source_of(&coord, &l.shape);
        let from_r = source_of(&coord, &r.shape);
        let a = l.get(&from_l);
        let b = r.get(&from_r);
        let v = func(a, b);
        data.push(v);
        k += 1;
    }
    proof {
        lemma_dense_wf(shape@, data@);
        assert forall|coord: Seq<usize>| in_bounds(coord, shape@) implies func.ensures(
            (l@.get(source_coord(coord, l@.shape)), r@.get(source_coord(coord, r@.shape))),
            #[trigger] TensorView::dense(shape@, data@).get(coord),
        ) by {
            lemma_offset_row_major_bound(coord, shape@);
            lemma_unravel_offset(coord, shape@);
            let j = offset(coord, row_major(shape@)) as int;
            assert(func.ensures((l@.source(shape@, j), r@.source(shape@, j)), data@[j]));
        }
    }
    Ok(Tensor { data, shape, stride })
}

/// Applies a function to every element. The result is densely packed and
/// has the shape of the argument; at every coordinate it holds a result of
/// `func` on the argument's element there.
pub fn elementwise_map<T: Copy, F: Fn(T) -> T>(t: &Tensor<T>, func: &F) -> (res: Result<
    Tensor<T>,
    ShapeError,
>)
    requires
        forall|a: T| func.requires((a,)),
    ensures
        res.is_ok(),
        res matches Ok(out) ==> {
            &&& out@.shape == t@.shape
            &&& out@.contiguous()
            &&& out@.data.len() == volume(out@.shape)
            &&& forall|k: int|
                0 <= k < out@.data.len() ==> func.ensures(
                    (t@.get(unravel(k as nat, t@.shape)),),
                    #[trigger] out@.data[k],
                )
            &&& forall|coord: Seq<usize>|
                in_bounds(coord, out@.shape) ==> func.ensures(
                    (t@.get(coord),),
                    #[trigger] out@.get(coord),
                )
        },
{
    proof {
        use_type_invariant(t);
    }
    let shape = t.shape.clone();
    assert(shape@ =~= t@.shape);
    let stride = get_postfix_prod(&shape);
    let total = volume_of(&shape);
    let mut data: Vec<T> = Vec::new();
    let mut k: usize = 0;
    while k < total
        invariant
            k <= total,
            total == volume(shape@),
            shape@ == t@.shape,
            extent(shape@) <= usize::MAX,
            stride@ == row_major(shape@),
            forall|a: T| func.requires((a,)),
            data.len() == k,
            forall|j: int|
                0 <= j < k ==> func.ensures(
                    (t@.get(unravel(j as nat, shape@)),),
                    #[trigger] data@[j],
                ),
        decreases total - k,
    {
        let coord = unravel_index(k, &shape, &stride);
        proof {
            lemma_unravel_in_bounds(k as nat, shape@);
        }
        let a = t.get(&coord);
        let v = func(a);
        data.push(v);
        k += 1;
    }
    proof {
        lemma_dense_wf(shape@, data@);
        assert forall|coord: Seq<usize>| in_bounds(coord, shape@) implies func.ensures(
            (t@.get(coord),),
            #[trigger] TensorView::dense(shape@, data@).get(coord),
        ) by {
            lemma_offset_row_major_bound(coord, shape@);
            lemma_unravel_offset(coord, shape@);
            let j = offset(coord, row_major(shape@)) as int;
            assert(func.ensures((t@.get(unravel(j as nat, shape@)),), data@[j]));
        }
    }
    Ok(Tensor { data, shape, stride })
}

/// A copy of a buffer.
fn copy_of<T: Copy>(source: &Vec<T>) -> (out: Vec<T>)
    ensures
        out@ == source@,
{
    let mut out: Vec<T> = Vec::new();
    let mut i: usize = 0;
    while i < source.len()
        invariant
            i <= source.len(),
            out@ == source@.take(i as int),
        decreases source.len() - i,
    {
        out.push(source[i]);
        assert(source@.take(i + 1) =~= source@.take(i as int).push(source@[i as int]));
        i += 1;
    }
    assert(source@.take(source.len() as int) =~= source@);
    out
}

impl<T> Tensor<T> {
    /// Holds of every tensor that exists at run time.
    #[verifier::type_invariant]
    pub open spec fn inv(&self) -> bool {
        self@.wf()
    }
}

impl<T: Copy> Tensor<T> {
    /// The rank-0 tensor that holds one element.
    pub fn from_scalar(value: T) -> (t: Tensor<T>)
        ensures
            t@ == TensorView::dense(Seq::empty(), seq![value]),
    {
        let mut data: Vec<T> = Vec::new();
        data.push(value);
        proof {
            assert(data@ =~= seq![value]);
            assert(row_major(Seq::<usize>::empty()) =~= Seq::<usize>::empty());
            lemma_dense_wf(Seq::<usize>::empty(), data@);
        }
        Tensor { data, shape: Vec::new(), stride: Vec::new() }
    }

    /// The densely packed tensor of the given shape over the given buffer, or
    /// an error where the buffer does not hold exactly one element per
    /// coordinate or the shape is too large to address.
    pub fn from_vec(data: Vec<T>, shape: &Vec<usize>) -> (r: Result<Tensor<T>, ShapeError>)
        ensures
            r.is_ok() <==> volume(shape@) == data.len() && extent(shape@) <= usize::MAX,
            r matches Ok(t) ==> t@ == TensorView::dense(shape@, data@),
    {
        if !shape_is_addressable(shape) {
            return Err(ShapeError);
        }
        if volume_of(shape) != data.len() {
            return Err(ShapeError);
        }
        let stride = get_postfix_prod(shape);
        let dims = shape.clone();
        proof {
            assert(dims@ =~= shape@);
            lemma_dense_wf(shape@, data@);
        }
        Ok(Tensor { data, shape: dims, stride })
    }

    /// The rank-1 tensor over a flat sequence.
    pub fn from_sequence(values: &[T]) -> (t: Tensor<T>)
        ensures
            t@ == TensorView::dense(seq![values@.len() as usize], values@),
    {
        let n = values.len();
        let mut data: Vec<T> = Vec::new();
        let mut i: usize = 0;
        while i < n
            invariant
                i <= n,
                n == values@.len(),
                data@ == values@.take(i as int),
            decreases n - i,
        {
            data.push(values[i]);
            assert(values@.take(i + 1) =~= values@.take(i as int).push(values@[i as int]));
            i += 1;
        }
        let mut shape: Vec<usize> = Vec::new();
        shape.push(n);
        let mut stride: Vec<usize> = Vec::new();
        stride.push(1);
        proof {
            assert(values@.take(n as int) =~= values@);
            let dims = seq![n];
            assert(shape@ =~= dims);
            assert(dims.skip(1) =~= Seq::<usize>::empty());
            assert(volume(dims) == n) by {
                assert(volume(dims) == dims[0] as nat * volume(dims.skip(1)));
            }
            assert(extent(dims) <= usize::MAX) by {
                assert(extent(dims.skip(1)) == 1);
                assert(extent(dims) == clamp(dims[0]) * extent(dims.skip(1)));
            }
            assert(stride@ =~= row_major(dims));
            lemma_dense_wf(dims, data@);
        }
        Tensor { data, shape, stride }
    }

    /// The size of each axis.
    pub fn shape(&self) -> (dims: &Vec<usize>)
        ensures
            dims@ == self@.shape,
            extent(dims@) <= usize::MAX,
    {
        proof {
            use_type_invariant(self);
        }
        &self.shape
    }

    /// Whether two tensors can be combined elementwise.
    pub fn compatible(l: &Tensor<T>, r: &Tensor<T>) -> (ok: bool)
        ensures
            ok == compatible(l@.shape, r@.shape),
    {
        shapes_compatible(l.shape(), r.shape())
    }

    /// The size of each axis.
    pub fn size(&self) -> (dims: &[usize])
        ensures
            dims@ == self@.shape,
    {
        self.shape.as_slice()
    }

    /// The number of elements in the buffer.
    pub fn n_elements(&self) -> (n: usize)
        ensures
            n == self@.data.len(),
            n == volume(self@.shape),
    {
        proof {
            use_type_invariant(self);
        }
        self.data.len()
    }

    /// The elements of the buffer, in storage order.
    pub fn data(&self) -> (elements: &Vec<T>)
        ensures
            elements@ == self@.data,
    {
        &self.data
    }

    /// The elements in row-major order of their coordinates, whatever the
    /// layout of the buffer.
    pub fn to_vec(&self) -> (elements: Vec<T>)
        ensures
            elements@ == self@.elements(),
    {
        let same = |a: T| -> (b: T)
            ensures
                b == a,
            { a };
        match elementwise_map(self, &same) {
            Ok(out) => {
                assert(out@.data =~= self@.elements());
                out.data
            },
            Err(_) => vstd::pervasive::unreached(),
        }
    }

    /// The only element of a tensor that holds exactly one.
    pub fn item(&self) -> (r: Result<T, ShapeError>)
        ensures
            r.is_ok() <==> self@.data.len() == 1,
            r matches Ok(v) ==> v == self@.data[0],
    {
        if self.data.len() == 1 {
            Ok(self.data[0])
        } else {
            Err(ShapeError)
        }
    }

    /// The element at a full coordinate. Fails where the coordinate does not
    /// have one index per axis or its flat position lies outside the buffer.
    pub fn at(&self, indices: &Vec<usize>) -> (r: Result<T, IndexError>)
        ensures
            r.is_ok() <==> indices@.len() == self@.shape.len() && offset(indices@, self@.stride)
                < self@.data.len(),
            r matches Ok(v) ==> v == self@.get(indices@),
    {
        if indices.len() != self.shape.len() {
            return Err(IndexError);
        }
        let len = self.data.len();
        match flat_idx(indices, &self.stride) {
            Some(pos) => {
                if pos < len {
                    Ok(self.data[pos])
                } else {
                    Err(IndexError)
                }
            },
            None => Err(IndexError),
        }
    }

    /// The same buffer read with two axes exchanged. A negative index counts
    /// from the last axis backward. The element of the result at a
    /// coordinate is the element of `self` at the coordinate with the two
    /// positions exchanged.
    pub fn transpose(&self, dim_idx_1: isize, dim_idx_2: isize) -> (t: Tensor<T>)
        requires
            -self@.shape.len() <= dim_idx_1 < self@.shape.len(),
            -self@.shape.len() <= dim_idx_2 < self@.shape.len(),
        ensures
            t@ == self@.transposed(
                axis_of(self@.shape.len(), dim_idx_1 as int),
                axis_of(self@.shape.len(), dim_idx_2 as int),
            ),
            forall|coord: Seq<usize>|
                in_bounds(coord, t@.shape) ==> #[trigger] t@.get(coord) == self@.get(
                    swapped(
                        coord,
                        axis_of(self@.shape.len(), dim_idx_1 as int),
                        axis_of(self@.shape.len(), dim_idx_2 as int),
                    ),
                ),
    {
        proof {
            use_type_invariant(self);
        }
        let a = self.idx(dim_idx_1);
        let b = self.idx(dim_idx_2);
        let mut shape = self.shape.clone();
        let mut stride = self.stride.clone();
        assert(shape@ =~= self@.shape && stride@ =~= self@.stride);
        let size_a = self.shape[a];
        let size_b = self.shape[b];
        shape.set(a, size_b);
        shape.set(b, size_a);
        let step_a = self.stride[a];
        let step_b = self.stride[b];
        stride.set(a, step_b);
        stride.set(b, step_a);
        let data = copy_of(&self.data);
        proof {
            let old_shape = self@.shape;
            let old_stride = self@.stride;
            assert(shape@ =~= swapped(old_shape, a as int, b as int));
            assert(stride@ =~= swapped(old_stride, a as int, b as int));
            lemma_swapped_shape(old_shape, a as int, b as int);
            assert forall|coord: Seq<usize>| in_bounds(coord, shape@) implies #[trigger] offset(
                coord,
                stride@,
            ) == offset(swapped(coord, a as int, b as int), old_stride) && in_bounds(
                swapped(coord, a as int, b as int),
                old_shape,
            ) by {
                let back = swapped(coord, a as int, b as int);
                lemma_swapped_in_bounds(coord, shape@, a as int, b as int);
                assert(swapped(shape@, a as int, b as int) =~= old_shape);
                lemma_swapped_offset(back, old_stride, a as int, b as int);
            }
        }
        Tensor { data, shape, stride }
    }

    /// The axis that a signed index names.
    fn idx(&self, idx: isize) -> (axis: usize)
        requires
            -self@.shape.len() <= idx < self@.shape.len(),
        ensures
            axis == axis_of(self@.shape.len(), idx as int),
            axis < self@.shape.len(),
    {
        if idx < 0 {
            let back: usize = (-(idx + 1)) as usize;
            self.shape.len() - 1 - back
        } else {
            idx as usize
        }
    }

    /// The element at a coordinate that lies within the shape.
    pub fn get(&self, indices: &Vec<usize>) -> (v: T)
        requires
            in_bounds(indices@, self@.shape),
        ensures
            v == self@.get(indices@),
    {
        proof {
            use_type_invariant(self);
        }
        match self.at(indices) {
            Ok(v) => v,
            Err(_) => vstd::pervasive::unreached(),
        }
    }
}

impl<T: Copy> From<T> for Tensor<T> {
    /// The rank-0 tensor that holds one element.
    fn from(value: T) -> (t: Self)
        ensures
            t@ == TensorView::dense(Seq::empty(), seq![value]),
    {
        Tensor::from_scalar(value)
    }
}

impl<T: Copy> vstd::std_specs::convert::FromSpecImpl<T> for Tensor<T> {
    open spec fn obeys_from_spec() -> bool {
        false
    }

    open spec fn from_spec(value: T) -> Self {
        arbitrary()
    }
}

impl<T: Copy> From<&[T]> for Tensor<T> {
    /// The rank-1 tensor over a flat sequence.
    fn from(values: &[T]) -> (t: Self)
        ensures
            t@ == TensorView::dense(seq![values@.len() as usize], values@),
    {
        Tensor::from_sequence(values)
    }
}

impl<T: Copy> vstd::std_specs::convert::FromSpecImpl<&[T]> for Tensor<T> {
    open spec fn obeys_from_spec() -> bool {
        false
    }

    open spec fn from_spec(values: &[T]) -> Self {
        arbitrary()
    }
}

impl<T: Copy> Clone for Tensor<T> {
    /// A copy of the whole buffer and its layout.
    fn clone(&self) -> (copy: Self)
        ensures
            copy@ == self@,
    {
        proof {
            use_type_invariant(self);
        }
        let data = copy_of(&self.data);
        let shape = self.shape.clone();
        let stride = self.stride.clone();
        assert(shape@ =~= self@.shape && stride@ =~= self@.stride);
        Tensor { data, shape, stride }
    }
}

impl<T: Scalar> Tensor<T> {
    /// The densely packed tensor of the given shape that holds `value`
    /// everywhere.
    pub fn full(shape: &Vec<usize>, value: T) -> (t: Tensor<T>)
        requires
            extent(shape@) <= usize::MAX,
        ensures
            t@ == TensorView::filled(shape@, value),
    {
        let total = volume_of(shape);
        let mut data: Vec<T> = Vec::new();
        let mut k: usize = 0;
        while k < total
            invariant
                k <= total,
                data.len() == k,
                forall|j: int| 0 <= j < k ==> data@[j] == value,
            decreases total - k,
        {
            data.push(value);
            k += 1;
        }
        let stride = get_postfix_prod(shape);
        let dims = shape.clone();
        proof {
            assert(dims@ =~= shape@);
            assert(data@ =~= Seq::new(volume(shape@), |j: int| value));
            lemma_dense_wf(shape@, data@);
        }
        Tensor { data, shape: dims, stride }
    }

    /// The tensor of the given shape that holds zero everywhere.
    pub fn zeros(shape: &Vec<usize>) -> (t: Tensor<T>)
        requires
            extent(shape@) <= usize::MAX,
        ensures
            t@ == TensorView::filled(shape@, T::of_count(0)),
    {
        Self::full(shape, T::from_count(0))
    }

    /// The tensor of the given shape that holds one everywhere.
    pub fn ones(shape: &Vec<usize>) -> (t: Tensor<T>)
        requires
            extent(shape@) <= usize::MAX,
        ensures
            t@ == TensorView::filled(shape@, T::of_count(1)),
    {
        Self::full(shape, T::from_count(1))
    }

    /// The tensor of the shape of `like` that holds zero everywhere.
    pub fn zeros_like(like: &Tensor<T>) -> (t: Tensor<T>)
        ensures
            t@ == TensorView::filled(like@.shape, T::of_count(0)),
    {
        proof {
            use_type_invariant(like);
        }
        Self::zeros(&like.shape)
    }

    /// The tensor of the shape of `like` that holds one everywhere.
    pub fn ones_like(like: &Tensor<T>) -> (t: Tensor<T>)
        ensures
            t@ == TensorView::filled(like@.shape, T::of_count(1)),
    {
        proof {
            use_type_invariant(like);
        }
        Self::ones(&like.shape)
    }

    /// The broadcast elementwise sum. At every coordinate of the joint shape
    /// the result holds the sum of the two source elements.
    pub fn add(l: &Tensor<T>, r: &Tensor<T>) -> (res: Result<Tensor<T>, ShapeError>)
        requires
            broadcastable(l@.shape, r@.shape) ==> broadcast_defined(l@.shape, r@.shape),
        ensures
            res.is_ok() <==> broadcastable(l@.shape, r@.shape),
            res matches Ok(out) ==> out@ == l@.plus(r@),
            res matches Ok(out) ==> forall|coord: Seq<usize>|
                in_bounds(coord, out@.shape) ==> #[trigger] out@.get(coord) == l@.get(
                    source_coord(coord, l@.shape),
                ).sum(r@.get(source_coord(coord, r@.shape))),
    {
        let f = |a: T, b: T| -> (c: T)
            ensures
                c == a.sum(b),
            { a.add(b) };
        let res = elementwise_broadcasted_map(l, r, &f);
        proof {
            if let Ok(out) = &res {
                assert(out@.data =~= l@.plus(r@).data);
            }
        }
        res
    }

    /// The broadcast elementwise difference. At every coordinate of the joint
    /// shape the result holds the left source element minus the right one.
    pub fn sub(l: &Tensor<T>, r: &Tensor<T>) -> (res: Result<Tensor<T>, ShapeError>)
        requires
            broadcastable(l@.shape, r@.shape) ==> broadcast_defined(l@.shape, r@.shape),
        ensures
            res.is_ok() <==> broadcastable(l@.shape, r@.shape),
            res matches Ok(out) ==> out@ == l@.minus(r@),
            res matches Ok(out) ==> forall|coord: Seq<usize>|
                in_bounds(coord, out@.shape) ==> #[trigger] out@.get(coord) == l@.get(
                    source_coord(coord, l@.shape),
                ).difference(r@.get(source_coord(coord, r@.shape))),
    {
        let f = |a: T, b: T| -> (c: T)
            ensures
                c == a.difference(b),
            { a.sub(b) };
        let res = elementwise_broadcasted_map(l, r, &f);
        proof {
            if let Ok(out) = &res {
                assert(out@.data =~= l@.minus(r@).data);
            }
        }
        res
    }

    /// The broadcast elementwise product. At every coordinate of the joint
    /// shape the result holds the product of the two source elements.
    pub fn mul(l: &Tensor<T>, r: &Tensor<T>) -> (res: Result<Tensor<T>, ShapeError>)
        requires
            broadcastable(l@.shape, r@.shape) ==> broadcast_defined(l@.shape, r@.shape),
        ensures
            res.is_ok() <==> broadcastable(l@.shape, r@.shape),
            res matches Ok(out) ==> out@ == l@.times(r@),
            res matches Ok(out) ==> forall|coord: Seq<usize>|
                in_bounds(coord, out@.shape) ==> #[trigger] out@.get(coord) == l@.get(
                    source_coord(coord, l@.shape),
                ).product(r@.get(source_coord(coord, r@.shape))),
    {
        let f = |a: T, b: T| -> (c: T)
            ensures
                c == a.product(b),
            { a.mul(b) };
        let res = elementwise_broadcasted_map(l, r, &f);
        proof {
            if let Ok(out) = &res {
                assert(out@.data =~= l@.times(r@).data);
            }
        }
        res
    }

    /// The broadcast elementwise quotient. At every coordinate of the joint
    /// shape the result holds the left source element divided by the right
    /// one, whatever the scalar type makes of a zero divisor.
    pub fn div(l: &Tensor<T>, r: &Tensor<T>) -> (res: Result<Tensor<T>, ShapeError>)
        requires
            broadcastable(l@.shape, r@.shape) ==> broadcast_defined(l@.shape, r@.shape),
        ensures
            res.is_ok() <==> broadcastable(l@.shape, r@.shape),
            res matches Ok(out) ==> out@ == l@.over(r@),
            res matches Ok(out) ==> forall|coord: Seq<usize>|
                in_bounds(coord, out@.shape) ==> #[trigger] out@.get(coord) == l@.get(
                    source_coord(coord, l@.shape),
                ).quotient(r@.get(source_coord(coord, r@.shape))),
    {
        let f = |a: T, b: T| -> (c: T)
            ensures
                c == a.quotient(b),
            { a.div(b) };
        let res = elementwise_broadcasted_map(l, r, &f);
        proof {
            if let Ok(out) = &res {
                assert(out@.data =~= l@.over(r@).data);
            }
        }
        res
    }

    /// Every element multiplied by itself.
    pub fn sqr(t: &Tensor<T>) -> (res: Result<Tensor<T>, ShapeError>)
        ensures
            res matches Ok(out) && out@ == t@.squared(),
    {
        let f = |a: T| -> (c: T)
            ensures
                c == a.product(a),
            { a.mul(a) };
        let res = elementwise_map(t, &f);
        proof {
            if let Ok(out) = &res {
                assert(out@.data =~= t@.squared().data);
            }
        }
        res
    }

    /// The mask of ones and zeros that marks the elements above the threshold.
    pub fn gt(val: &Tensor<T>, threshold: T) -> (mask: Tensor<T>)
        ensures
            mask@ == val@.above(threshold),
    {
        let one = T::from_count(1);
        let zero = T::from_count(0);
        let f = |a: T| -> (c: T)
            ensures
                c == if a.exceeds(threshold) {
                    T::of_count(1)
                } else {
                    T::of_count(0)
                },
            {
                if a.gt(threshold) {
                    one
                } else {
                    zero
                }
            };
        let res = elementwise_map(val, &f);
        match res {
            Ok(out) => {
                assert(out@.data =~= val@.above(threshold).data);
                out
            },
            Err(_) => vstd::pervasive::unreached(),
        }
    }

    /// Whether two tensors can be multiplied as matrices.
    pub fn can_matmul(&self, rhs: &Self) -> (ok: bool)
        ensures
            ok == self@.matmul_defined(rhs@),
    {
        if self.shape.len() != 2 || rhs.shape.len() != 2 {
            return false;
        }
        if self.shape[1] != rhs.shape[0] {
            return false;
        }
        let mut shape: Vec<usize> = Vec::new();
        shape.push(self.shape[0]);
        shape.push(rhs.shape[1]);
        assert(shape@ =~= seq![self@.shape[0], rhs@.shape[1]]);
        shape_is_addressable(&shape)
    }

    /// The dense product of two matrices. The entry in row `i`, column `j` is
    /// the sum over the inner axis, from the left and starting at zero, of
    /// the products of the entries of row `i` of `self` and column `j` of
    /// `rhs`.
    pub fn matmul(&self, rhs: &Self) -> (out: Tensor<T>)
        requires
            self@.matmul_defined(rhs@),
        ensures
            out@ == self@.matmul(rhs@),
            forall|i: usize, j: usize|
                i < self@.shape[0] && j < rhs@.shape[1] ==> #[trigger] out@.entry(i, j)
                    == self@.dot(rhs@, i, j, self@.shape[1] as nat),
    {
        let h = self.shape[0];
        let w = rhs.shape[1];
        let inner = self.shape[1];
        let mut shape: Vec<usize> = Vec::new();
        shape.push(h);
        shape.push(w);
        assert(shape@ =~= seq![h, w]);
        let stride = get_postfix_prod(&shape);
        let total = volume_of(&shape);
        let zero = T::from_count(0);
        let mut data: Vec<T> = Vec::new();
        let mut p: usize = 0;
        proof {
            if h > 0 && w > 0 {
                lemma_matrix_offset(h, w, 0, 0);
            } else {
                lemma_volume_skip(shape@, 0);
                lemma_volume_skip(shape@, 1);
                assert(shape@.skip(0) =~= shape@);
                assert(shape@.skip(2) =~= Seq::<usize>::empty());
                assert(volume(shape@) == 0 && h as nat * w as nat == 0) by (nonlinear_arith)
                    requires
                        volume(shape@) == h as nat * (w as nat * 1),
                        h == 0 || w == 0,
                ;
            }
        }
        while p < total
            invariant
                p <= total,
                total == h as nat * w as nat,
                total == volume(shape@),
                self@.matmul_defined(rhs@),
                h == self@.shape[0],
                w == rhs@.shape[1],
                inner == self@.shape[1],
                zero == T::of_count(0),
                data.len() == p,
                forall|q: int|
                    0 <= q < p ==> #[trigger] data@[q] == self@.dot(
                        rhs@,
                        (q / w as int) as usize,
                        (q % w as int) as usize,
                        inner as nat,
                    ),
            decreases total - p,
        {
            proof {
                lemma_quotient_below(p as nat, h as nat, w as nat);
            }
            let i = p / w;
            let j = p % w;
            let mut sum = zero;
            let mut k: usize = 0;
            while k < inner
                invariant
                    k <= inner,
                    i < self@.shape[0],
                    j < rhs@.shape[1],
                    inner == self@.shape[1],
                    self@.matmul_defined(rhs@),
                    sum == self@.dot(rhs@, i, j, k as nat),
                decreases inner - k,
            {
                let mut from_l: Vec<usize> = Vec::new();
                from_l.push(i);
                from_l.push(k);
                let mut from_r: Vec<usize> = Vec::new();
                from_r.push(k);
                from_r.push(j);
                assert(from_l@ =~= seq![i, k] && from_r@ =~= seq![k, j]);
                let a = self.get(&from_l);
                let b = rhs.get(&from_r);
                sum = sum.add(a.mul(b));
                k += 1;
            }
            data.push(sum);
            p += 1;
        }
        proof {
            lemma_dense_wf(shape@, data@);
            assert(data@ =~= self@.matmul(rhs@).data);
            assert forall|i: usize, j: usize| i < h && j < w implies #[trigger] TensorView::dense(
                shape@,
                data@,
            ).entry(i, j) == self@.dot(rhs@, i, j, inner as nat) by {
                lemma_matrix_offset(h, w, i, j);
            }
        }
        Tensor { data, shape, stride }
    }

    /// The dense product of two matrices.
    pub fn mmul(l: &Tensor<T>, r: &Tensor<T>) -> (out: Tensor<T>)
        requires
            l@.matmul_defined(r@),
        ensures
            out@ == l@.matmul(r@),
    {
        l.matmul(r)
    }

    /// Every element multiplied by its mask value: one where the element
    /// exceeds zero, zero elsewhere.
    pub fn relu(t: &Tensor<T>) -> (out: Tensor<T>)
        ensures
            out@ == t@.rectified(),
    {
        proof {
            use_type_invariant(t);
            lemma_broadcast_same(t@.shape);
        }
        let mask = Self::gt(t, T::from_count(0));
        match Self::mul(&mask, t) {
            Ok(out) => out,
            Err(_) => vstd::pervasive::unreached(),
        }
    }

    /// The mean of all elements, as a rank-0 tensor: the sum of the buffer
    /// from the left, divided by the number of coordinates.
    pub fn mean(val: &Tensor<T>) -> (m: Tensor<T>)
        ensures
            m@ == val@.averaged(),
    {
        proof {
            use_type_invariant(val);
        }
        let n = val.data.len();
        let mut sum = T::from_count(0);
        let mut i: usize = 0;
        while i < n
            invariant
                i <= n,
                n == val@.data.len(),
                sum == sum_of(val@.data.take(i as int)),
            decreases n - i,
        {
            proof {
                let next = val@.data.take(i + 1);
                assert(next.drop_last() =~= val@.data.take(i as int));
            }
            sum = sum.add(val.data[i]);
            i += 1;
        }
        assert(val@.data.take(n as int) =~= val@.data);
        Tensor::from_scalar(sum.div(T::from_count(n)))
    }
}

/// A tensor under construction: its elements can still be written.
pub struct VecTensor<T> {
    data: Vec<T>,
    shape: Vec<usize>,
    stride: Vec<usize>,
}

impl<T> View for VecTensor<T> {
    type V = TensorView<T>;

    closed spec fn view(&self) -> TensorView<T> {
        TensorView { data: self.data@, shape: self.shape@, stride: self.stride@ }
    }
}

impl<T: Scalar> VecTensor<T> {
    /// The densely packed tensor of the given shape that holds zero
    /// everywhere.
    pub fn zeroes(shape: &Vec<usize>) -> (t: VecTensor<T>)
        requires
            extent(shape@) <= usize::MAX,
        ensures
            t@ == TensorView::filled(shape@, T::of_count(0)),
            t@.wf(),
    {
        let zero = Tensor::zeros(shape);
        proof {
            use_type_invariant(&zero);
        }
        let Tensor { data, shape, stride } = zero;
        VecTensor { data, shape, stride }
    }

    /// The place of the element at a coordinate. What is written there is
    /// the only change to the tensor.
    pub fn at_mut(&mut self, indices: &Vec<usize>) -> (element: &mut T)
        requires
            offset(indices@, old(self)@.stride) < old(self)@.data.len(),
        ensures
            *element == old(self)@.get(indices@),
            final(self)@ == (TensorView {
                data: old(self)@.data.update(
                    offset(indices@, old(self)@.stride) as int,
                    *final(element),
                ),
                shape: old(self)@.shape,
                stride: old(self)@.stride,
            }),
    {
        let len = self.data.len();
        match flat_idx(indices, &self.stride) {
            Some(pos) => {
                assert(pos < len);
                &mut self.data[pos]
            },
            None => vstd::pervasive::unreached(),
        }
    }

    /// The finished tensor.
    pub fn to_tensor(self) -> (t: Tensor<T>)
        requires
            self@.wf(),
        ensures
            t@ == self@,
    {
        Tensor { data: self.data, shape: self.shape, stride: self.stride }
    }
}

/// One value drawn by `rand::Rng::gen` from the generator that
/// `rand::thread_rng` hands to the calling thread. Nothing is claimed of the
/// value: it differs from call to call.
#[verifier::external_body]
fn sample<T>() -> (value: T) where Standard: Distribution<T> {
    rand::thread_rng().gen()
}

impl<T: Copy> Tensor<T> {
    /// The densely packed tensor of the given shape whose elements are drawn
    /// one by one from the thread's random generator, each as the standard
    /// distribution of the element type has it. Only the layout is promised.
    pub fn rand(shape: &Vec<usize>) -> (t: Tensor<T>) where Standard: Distribution<T>
        requires
            extent(shape@) <= usize::MAX,
        ensures
            t@.shape == shape@,
            t@.contiguous(),
            t@.data.len() == volume(shape@),
    {
        let total = volume_of(shape);
        let mut data: Vec<T> = Vec::new();
        let mut k: usize = 0;
        while k < total
            invariant
                k <= total,
                data.len() == k,
            decreases total - k,
        {
            data.push(sample());
            k += 1;
        }
        let stride = get_postfix_prod(shape);
        let dims = shape.clone();
        proof {
            assert(dims@ =~= shape@);
            lemma_dense_wf(shape@, data@);
        }
        Tensor { data, shape: dims, stride }
    }
}

} // verus!
