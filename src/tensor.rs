//! The dense tensor of the CPU backend: a shape and its elements in row-major order.

use core::ops::Range;
use vstd::prelude::*;

use crate::shape::{
    as_index, in_bounds, lemma_product_swap, lemma_unravel_in_bounds, num_elements_of, product, ravel, ravel_index,
    swap_axes, unravel, unravel_index, Device, Shape,
};

verus! {

/// Host-side data: elements in row-major order, paired with their shape.
pub struct Data<E> {
    pub value: Vec<E>,
    pub shape: Shape,
}

impl<E> Data<E> {
    pub open spec fn wf(&self) -> bool {
        self.shape.wf() && self.value@.len() == product(self.shape.dims@)
    }

    pub fn new(value: Vec<E>, shape: Shape) -> (r: Data<E>)
        ensures
            r.value@ == value@,
            r.shape.dims@ == shape.dims@,
    {
        Data { value, shape }
    }
}

/// A dense tensor held in memory.
pub struct NdArrayTensor<E> {
    pub shape: Shape,
    pub data: Vec<E>,
}

impl<E: Copy> NdArrayTensor<E> {
    /// A separate tensor with the same shape and elements.
    pub fn duplicate(&self) -> (r: NdArrayTensor<E>)
        ensures
            r.dims() == self.dims(),
            r.values() == self.values(),
            self.wf() ==> r.wf(),
    {
        let mut data: Vec<E> = Vec::new();
        let mut j: usize = 0;
        while j < self.data.len()
            invariant
                j <= self.data@.len(),
                data@ =~= self.data@.subrange(0, j as int),
            decreases self.data@.len() - j,
        {
            data.push(self.data[j]);
            j = j + 1;
        }
        NdArrayTensor { shape: self.shape.clone_shape(), data }
    }

    /// A copy of the shape and elements as host data; the tensor is kept.
    pub fn to_data(&self) -> (r: Data<E>)
        requires
            self.wf(),
        ensures
            r.wf(),
            r.shape.dims@ == self.dims(),
            r.value@ == self.values(),
    {
        let copy = self.duplicate();
        Data { value: copy.data, shape: copy.shape }
    }
}

impl<E> NdArrayTensor<E> {
    /// The element count of the shape matches the stored elements.
    pub open spec fn wf(&self) -> bool {
        self.shape.wf() && self.data@.len() == product(self.shape.dims@)
    }

    pub open spec fn dims(&self) -> Seq<usize> {
        self.shape.dims@
    }

    pub open spec fn values(&self) -> Seq<E> {
        self.data@
    }

    /// The element at multi-index `idx`.
    pub open spec fn at(&self, idx: Seq<int>) -> E {
        self.data@[ravel(self.dims(), idx)]
    }

    pub fn from_data(data: Data<E>) -> (r: NdArrayTensor<E>)
        requires
            data.wf(),
        ensures
            r.wf(),
            r.dims() == data.shape.dims@,
            r.values() == data.value@,
    {
        NdArrayTensor { shape: data.shape, data: data.value }
    }

    pub fn into_data(self) -> (r: Data<E>)
        requires
            self.wf(),
        ensures
            r.wf(),
            r.shape.dims@ == self.dims(),
            r.value@ == self.values(),
    {
        Data { value: self.data, shape: self.shape }
    }

    pub fn shape(&self) -> (r: Shape)
        ensures
            r.dims@ == self.dims(),
    {
        self.shape.clone_shape()
    }

    /// This backend keeps every tensor in host memory.
    pub fn device(&self) -> (r: Device)
        ensures
            r == Device::Cpu,
    {
        Device::Cpu
    }
}

/// The sizes of the region that `ranges` selects; trailing axes are kept whole.
pub open spec fn sliced_dims(dims: Seq<usize>, ranges: Seq<Range<usize>>) -> Seq<usize> {
    Seq::new(
        dims.len(),
        |a: int|
            if a < ranges.len() {
                (ranges[a].end - ranges[a].start) as usize
            } else {
                dims[a]
            },
    )
}

/// Where the selected region begins along axis `a`.
pub open spec fn range_start(ranges: Seq<Range<usize>>, a: int) -> int {
    if a < ranges.len() {
        ranges[a].start as int
    } else {
        0
    }
}

/// `idx` moved by the start of each range.
pub open spec fn shifted(idx: Seq<int>, ranges: Seq<Range<usize>>) -> Seq<int> {
    Seq::new(idx.len(), |a: int| idx[a] + range_start(ranges, a))
}

/// `idx` moved back by the start of each range.
pub open spec fn unshifted(idx: Seq<int>, ranges: Seq<Range<usize>>) -> Seq<int> {
    Seq::new(idx.len(), |a: int| idx[a] - range_start(ranges, a))
}

/// `idx` lies inside the region that `ranges` selects.
pub open spec fn in_box(idx: Seq<int>, ranges: Seq<Range<usize>>) -> bool {
    forall|a: int| 0 <= a < ranges.len() ==> ranges[a].start <= #[trigger] idx[a] < ranges[a].end
}

/// One non-empty range per leading axis, each within its axis.
pub open spec fn valid_ranges(dims: Seq<usize>, ranges: Seq<Range<usize>>) -> bool {
    &&& ranges.len() <= dims.len()
    &&& forall|a: int|
        0 <= a < ranges.len() ==> (#[trigger] ranges[a]).start < ranges[a].end && ranges[a].end
            <= dims[a]
}

/// Pointwise smaller sizes hold no more elements.
pub proof fn lemma_product_le(a: Seq<usize>, b: Seq<usize>)
    requires
        a.len() == b.len(),
        forall|i: int| 0 <= i < a.len() ==> #[trigger] a[i] <= b[i],
    ensures
        product(a) <= product(b),
    decreases a.len(),
{
    if a.len() > 0 {
        let a0 = a.drop_last();
        let b0 = b.drop_last();
        assert forall|i: int| 0 <= i < a0.len() implies #[trigger] a0[i] <= b0[i] by {
            assert(a0[i] == a[i] && b0[i] == b[i]);
        }
        lemma_product_le(a0, b0);
        let p = product(a0);
        let q = product(b0);
        let x = a.last() as nat;
        let y = b.last() as nat;
        assert(x <= y);
        assert(p * x <= q * y) by (nonlinear_arith)
            requires
                p <= q,
                x <= y,
        ;
    }
}

/// The sizes of the region selected by `ranges`.
fn sliced_dims_exec(dims: &Vec<usize>, ranges: &Vec<Range<usize>>) -> (r: Vec<usize>)
    requires
        valid_ranges(dims@, ranges@),
    ensures
        r@ == sliced_dims(dims@, ranges@),
{
    let mut r: Vec<usize> = Vec::new();
    let mut a: usize = 0;
    while a < dims.len()
        invariant
            a <= dims@.len(),
            valid_ranges(dims@, ranges@),
            r@ =~= sliced_dims(dims@, ranges@).subrange(0, a as int),
        decreases dims@.len() - a,
    {
        if a < ranges.len() {
            assert(ranges@[a as int].start < ranges@[a as int].end);
            r.push(ranges[a].end - ranges[a].start);
        } else {
            r.push(dims[a]);
        }
        a = a + 1;
    }
    r
}

/// A tensor of shape `shape` with every element equal to `value`.
pub fn full<E: Copy>(shape: Shape, value: E) -> (r: NdArrayTensor<E>)
    requires
        shape.wf(),
    ensures
        r.wf(),
        r.dims() == shape.dims@,
        forall|j: int| 0 <= j < r.values().len() ==> #[trigger] r.values()[j] == value,
{
    let n = shape.num_elements();
    let mut data: Vec<E> = Vec::new();
    let mut j: usize = 0;
    while j < n
        invariant
            j <= n,
            data@.len() == j,
            forall|k: int| 0 <= k < j ==> #[trigger] data@[k] == value,
        decreases n - j,
    {
        data.push(value);
        j = j + 1;
    }
    NdArrayTensor { shape, data }
}

/// Where tensor `i` begins along axis `dim` in the concatenation of `ts`.
pub open spec fn cat_offset<E>(ts: Seq<NdArrayTensor<E>>, dim: int, i: int) -> int
    decreases i,
{
    if i <= 0 {
        0
    } else {
        cat_offset(ts, dim, i - 1) + ts[i - 1].dims()[dim]
    }
}

/// The tensors can be joined along axis `dim`: there is at least one, all are well
/// formed, and they agree on every other axis.
pub open spec fn cat_ok<E>(ts: Seq<NdArrayTensor<E>>, dim: int) -> bool {
    &&& ts.len() > 0
    &&& 0 <= dim < ts[0].dims().len()
    &&& forall|i: int|
        0 <= i < ts.len() ==> (#[trigger] ts[i]).wf() && ts[i].dims().len() == ts[0].dims().len()
    &&& forall|i: int, a: int|
        0 <= i < ts.len() && 0 <= a < ts[0].dims().len() && a != dim ==> #[trigger] ts[i].dims()[a]
            == ts[0].dims()[a]
}

/// The shape of the concatenation of `ts` along axis `dim`.
pub open spec fn cat_dims<E>(ts: Seq<NdArrayTensor<E>>, dim: int) -> Seq<usize> {
    ts[0].dims().update(dim, cat_offset(ts, dim, ts.len() as int) as usize)
}

pub proof fn lemma_cat_offset_mono<E>(ts: Seq<NdArrayTensor<E>>, dim: int, a: int, b: int)
    requires
        0 <= a <= b,
    ensures
        cat_offset(ts, dim, a) <= cat_offset(ts, dim, b),
    decreases b - a,
{
    if a < b {
        lemma_cat_offset_mono(ts, dim, a, b - 1);
    }
}

/// `idx` read backwards along every axis listed in `axes`.
pub open spec fn flipped(idx: Seq<int>, dims: Seq<usize>, axes: Seq<usize>) -> Seq<int> {
    Seq::new(
        idx.len(),
        |a: int|
            if axes.contains(a as usize) {
                dims[a] - 1 - idx[a]
            } else {
                idx[a]
            },
    )
}

/// `perm` lists each of the axes `0..n` exactly once.
pub open spec fn is_permutation(perm: Seq<usize>, n: int) -> bool {
    &&& perm.len() == n
    &&& forall|a: int| 0 <= a < n ==> #[trigger] perm[a] < n
    &&& forall|a: int, b: int| 0 <= a < n && 0 <= b < n && a != b ==> perm[a] != perm[b]
    &&& forall|b: int| 0 <= b < n ==> #[trigger] perm.contains(b as usize)
}

/// The sizes after moving axis `perm[a]` to position `a`.
pub open spec fn permuted_dims(dims: Seq<usize>, perm: Seq<usize>) -> Seq<usize> {
    Seq::new(perm.len(), |a: int| dims[perm[a] as int])
}

/// The source multi-index read by result multi-index `idx`: axis `perm[a]` takes `idx[a]`.
pub open spec fn unpermuted(idx: Seq<int>, perm: Seq<usize>) -> Seq<int> {
    Seq::new(idx.len(), |b: int| idx[choose|a: int| 0 <= a < perm.len() && perm[a] as int == b])
}

/// The ranges where the elements of the unpadded tensor sit inside the padded one.
pub open spec fn pad_ranges(dims: Seq<usize>, before: Seq<usize>) -> Seq<Range<usize>> {
    Seq::new(
        dims.len(),
        |a: int| Range { start: before[a], end: (before[a] + dims[a]) as usize },
    )
}

/// Shape-level operations shared by every element type.
pub struct NdArrayOps<E> {
    e: core::marker::PhantomData<E>,
}

impl<E: Copy> NdArrayOps<E> {
    /// Reads the region selected by `indexes`; axes without a range are kept whole.
    pub fn index(tensor: NdArrayTensor<E>, indexes: Vec<Range<usize>>) -> (r: NdArrayTensor<E>)
        requires
            tensor.wf(),
            valid_ranges(tensor.dims(), indexes@),
        ensures
            r.wf(),
            r.dims() == sliced_dims(tensor.dims(), indexes@),
            forall|j: int|
                0 <= j < r.values().len() ==> #[trigger] r.values()[j] == tensor.at(
                    shifted(unravel(r.dims(), j), indexes@),
                ),
    {
        let dims = &tensor.shape.dims;
        let out_dims = sliced_dims_exec(dims, &indexes);
        proof {
            lemma_product_le(out_dims@, dims@);
        }
        let out_n = num_elements_of(&out_dims);
        let mut out: Vec<E> = Vec::new();
        let mut j: usize = 0;
        while j < out_n
            invariant
                j <= out_n,
                out_n == product(out_dims@),
                out_dims@ == sliced_dims(dims@, indexes@),
                tensor.wf(),
                *dims == tensor.shape.dims,
                valid_ranges(dims@, indexes@),
                out@.len() == j,
                forall|k: int|
                    0 <= k < j ==> #[trigger] out@[k] == tensor.at(
                        shifted(unravel(out_dims@, k), indexes@),
                    ),
            decreases out_n - j,
        {
            let mut u = unravel_index(&out_dims, j);
            let ghost u0 = as_index(u@);
            let mut a: usize = 0;
            while a < indexes.len()
                invariant
                    a <= indexes@.len(),
                    valid_ranges(dims@, indexes@),
                    out_dims@ == sliced_dims(dims@, indexes@),
                    in_bounds(out_dims@, u0),
                    u@.len() == dims@.len(),
                    forall|b: int| 0 <= b < a ==> #[trigger] u@[b] == u0[b] + indexes@[b].start,
                    forall|b: int| a <= b < dims@.len() ==> #[trigger] u@[b] == u0[b],
                decreases indexes@.len() - a,
            {
                assert(u0[a as int] < out_dims@[a as int]);
                let s = indexes[a].start;
                let v = u[a] + s;
                u.set(a, v);
                a = a + 1;
            }
            proof {
                assert(as_index(u@) =~= shifted(u0, indexes@));
                assert forall|b: int| 0 <= b < dims@.len() implies 0 <= #[trigger] as_index(
                    u@,
                )[b] < dims@[b] by {
                    assert(0 <= u0[b] < out_dims@[b]);
                }
            }
            let src = ravel_index(dims, &u);
            out.push(tensor.data[src]);
            j = j + 1;
        }
        NdArrayTensor { shape: Shape { dims: out_dims }, data: out }
    }

    /// Writes `value` into the region selected by `indexes`; every other element is kept.
    pub fn index_assign(
        tensor: NdArrayTensor<E>,
        indexes: Vec<Range<usize>>,
        value: NdArrayTensor<E>,
    ) -> (r: NdArrayTensor<E>)
        requires
            tensor.wf(),
            value.wf(),
            valid_ranges(tensor.dims(), indexes@),
            value.dims() == sliced_dims(tensor.dims(), indexes@),
        ensures
            r.wf(),
            r.dims() == tensor.dims(),
            forall|j: int|
                0 <= j < r.values().len() ==> #[trigger] r.values()[j] == if in_box(
                    unravel(tensor.dims(), j),
                    indexes@,
                ) {
                    value.at(unshifted(unravel(tensor.dims(), j), indexes@))
                } else {
                    tensor.values()[j]
                },
    {
        let dims = &tensor.shape.dims;
        let n = tensor.data.len();
        let mut out: Vec<E> = Vec::new();
        let mut j: usize = 0;
        while j < n
            invariant
                j <= n,
                n == product(dims@),
                tensor.wf(),
                value.wf(),
                *dims == tensor.shape.dims,
                valid_ranges(dims@, indexes@),
                value.dims() == sliced_dims(dims@, indexes@),
                out@.len() == j,
                forall|k: int|
                    0 <= k < j ==> #[trigger] out@[k] == if in_box(unravel(dims@, k), indexes@) {
                        value.at(unshifted(unravel(dims@, k), indexes@))
                    } else {
                        tensor.values()[k]
                    },
            decreases n - j,
        {
            let mut u = unravel_index(dims, j);
            let ghost u0 = as_index(u@);
            let mut inside = true;
            let mut a: usize = 0;
            while inside && a < indexes.len()
                invariant
                    a <= indexes@.len(),
                    valid_ranges(dims@, indexes@),
                    in_bounds(dims@, u0),
                    u@.len() == dims@.len(),
                    inside ==> forall|b: int|
                        0 <= b < a ==> indexes@[b].start <= #[trigger] u0[b] < indexes@[b].end,
                    !inside ==> !in_box(u0, indexes@),
                    inside ==> forall|b: int|
                        0 <= b < a ==> #[trigger] u@[b] == u0[b] - indexes@[b].start,
                    inside ==> forall|b: int| a <= b < dims@.len() ==> #[trigger] u@[b] == u0[b],
                decreases indexes@.len() - a + (if inside {
                    1int
                } else {
                    0int
                }),
            {
                let s = indexes[a].start;
                let e = indexes[a].end;
                if u[a] < s || u[a] >= e {
                    inside = false;
                } else {
                    let v = u[a] - s;
                    u.set(a, v);
                    a = a + 1;
                }
            }
            if inside {
                proof {
                    assert(in_box(u0, indexes@));
                    assert(as_index(u@) =~= unshifted(u0, indexes@));
                    assert forall|b: int| 0 <= b < dims@.len() implies 0 <= #[trigger] as_index(
                        u@,
                    )[b] < value.dims()[b] by {
                        assert(0 <= u0[b] < dims@[b]);
                    }
                }
                let src = ravel_index(&value.shape.dims, &u);
                out.push(value.data[src]);
            } else {
                out.push(tensor.data[j]);
            }
            j = j + 1;
        }
        NdArrayTensor { shape: tensor.shape, data: out }
    }

    /// Joins `tensors` along axis `dim`, in list order.
    pub fn cat(tensors: Vec<NdArrayTensor<E>>, dim: usize) -> (r: NdArrayTensor<E>)
        requires
            cat_ok(tensors@, dim as int),
            cat_offset(tensors@, dim as int, tensors@.len() as int) <= usize::MAX,
            product(cat_dims(tensors@, dim as int)) <= usize::MAX,
        ensures
            r.wf(),
            r.dims() == cat_dims(tensors@, dim as int),
            forall|j: int, i: int|
                0 <= j < r.values().len() && 0 <= i < tensors@.len() && cat_offset(
                    tensors@,
                    dim as int,
                    i,
                ) <= unravel(r.dims(), j)[dim as int] < cat_offset(tensors@, dim as int, i + 1)
                    ==> #[trigger] r.values()[j] == (#[trigger] tensors@[i]).at(
                    unravel(r.dims(), j).update(
                        dim as int,
                        unravel(r.dims(), j)[dim as int] - cat_offset(tensors@, dim as int, i),
                    ),
                ),
    {
        let ghost ts = tensors@;
        let count = tensors.len();
        let mut total: usize = 0;
        let mut i: usize = 0;
        while i < count
            invariant
                i <= count,
                count == ts.len(),
                ts == tensors@,
                cat_ok(ts, dim as int),
                cat_offset(ts, dim as int, count as int) <= usize::MAX,
                total == cat_offset(ts, dim as int, i as int),
            decreases count - i,
        {
            proof {
                lemma_cat_offset_mono(ts, dim as int, i + 1, count as int);
            }
            total = total + tensors[i].shape.dims[dim];
            i = i + 1;
        }
        let mut out_dims: Vec<usize> = Vec::new();
        let mut a: usize = 0;
        let first_dims = &tensors[0].shape.dims;
        while a < first_dims.len()
            invariant
                a <= first_dims@.len(),
                *first_dims == tensors@[0].shape.dims,
                dim < first_dims@.len(),
                out_dims@ =~= first_dims@.update(dim as int, total).subrange(0, a as int),
            decreases first_dims@.len() - a,
        {
            if a == dim {
                out_dims.push(total);
            } else {
                out_dims.push(first_dims[a]);
            }
            a = a + 1;
        }
        assert(out_dims@ == cat_dims(ts, dim as int));
        let n = num_elements_of(&out_dims);
        let mut out: Vec<E> = Vec::new();
        let mut j: usize = 0;
        while j < n
            invariant
                j <= n,
                n == product(out_dims@),
                ts == tensors@,
                count == ts.len(),
                cat_ok(ts, dim as int),
                out_dims@ == cat_dims(ts, dim as int),
                total == cat_offset(ts, dim as int, count as int),
                total <= usize::MAX,
                out@.len() == j,
                forall|k: int, i: int|
                    0 <= k < j && 0 <= i < ts.len() && cat_offset(ts, dim as int, i) <= unravel(
                        out_dims@,
                        k,
                    )[dim as int] < cat_offset(ts, dim as int, i + 1) ==> #[trigger] out@[k]
                        == (#[trigger] ts[i]).at(
                        unravel(out_dims@, k).update(
                            dim as int,
                            unravel(out_dims@, k)[dim as int] - cat_offset(ts, dim as int, i),
                        ),
                    ),
            decreases n - j,
        {
            let u = unravel_index(&out_dims, j);
            let ghost ui = as_index(u@);
            let pos = u[dim];
            proof {
                assert(0 <= ui[dim as int] < out_dims@[dim as int]);
            }
            let mut t: usize = 0;
            let mut off: usize = 0;
            proof {
                lemma_cat_offset_mono(ts, dim as int, 1, count as int);
            }
            while pos >= off + tensors[t].shape.dims[dim]
                invariant
                    t < count,
                    count == ts.len(),
                    ts == tensors@,
                    cat_ok(ts, dim as int),
                    off == cat_offset(ts, dim as int, t as int),
                    cat_offset(ts, dim as int, t + 1) <= total,
                    off <= pos < total,
                    total == cat_offset(ts, dim as int, count as int),
                    total <= usize::MAX,
                decreases count - t,
            {
                proof {
                    lemma_cat_offset_mono(ts, dim as int, t + 1, count as int);
                }
                off = off + tensors[t].shape.dims[dim];
                t = t + 1;
                proof {
                    if t == count {
                        assert(false);
                    }
                    lemma_cat_offset_mono(ts, dim as int, t + 1, count as int);
                }
            }
            proof {
                assert forall|b: int| 0 <= b < ts[t as int].dims().len() && b != dim implies #[trigger] u@[b]
                    < ts[t as int].dims()[b] by {
                    assert(0 <= ui[b] < out_dims@[b]);
                }
            }
            let p = crate::reduce::position_along(&u, &tensors[t].shape.dims, dim, pos - off);
            out.push(tensors[t].data[p]);
            proof {
                assert forall|i: int|
                    0 <= i < ts.len() && #[trigger] cat_offset(ts, dim as int, i) <= ui[dim as int]
                        < cat_offset(ts, dim as int, i + 1) implies i == t by {
                    if i < t {
                        lemma_cat_offset_mono(ts, dim as int, i + 1, t as int);
                    } else if i > t {
                        lemma_cat_offset_mono(ts, dim as int, t + 1, i);
                    }
                }
            }
            j = j + 1;
        }
        NdArrayTensor { shape: Shape { dims: out_dims }, data: out }
    }

    /// Exchanges axes `dim1` and `dim2`.
    pub fn swap_dims(tensor: NdArrayTensor<E>, dim1: usize, dim2: usize) -> (r: NdArrayTensor<E>)
        requires
            tensor.wf(),
            dim1 < tensor.dims().len(),
            dim2 < tensor.dims().len(),
        ensures
            r.wf(),
            r.dims() == swap_axes(tensor.dims(), dim1 as int, dim2 as int),
            forall|j: int|
                0 <= j < r.values().len() ==> #[trigger] r.values()[j] == tensor.at(
                    swap_axes(unravel(r.dims(), j), dim1 as int, dim2 as int),
                ),
    {
        let dims = &tensor.shape.dims;
        let d1 = dims[dim1];
        let d2 = dims[dim2];
        let mut out_dims: Vec<usize> = Vec::new();
        let mut a: usize = 0;
        while a < dims.len()
            invariant
                a <= dims@.len(),
                dim1 < dims@.len(),
                dim2 < dims@.len(),
                d1 == dims@[dim1 as int],
                d2 == dims@[dim2 as int],
                out_dims@ =~= swap_axes(dims@, dim1 as int, dim2 as int).subrange(0, a as int),
            decreases dims@.len() - a,
        {
            if a == dim2 {
                out_dims.push(d1);
            } else if a == dim1 {
                out_dims.push(d2);
            } else {
                out_dims.push(dims[a]);
            }
            a = a + 1;
        }
        proof {
            assert(out_dims@ =~= swap_axes(dims@, dim1 as int, dim2 as int));
            lemma_product_swap(dims@, dim1 as int, dim2 as int);
        }
        let n = tensor.data.len();
        let mut out: Vec<E> = Vec::new();
        let mut j: usize = 0;
        while j < n
            invariant
                j <= n,
                n == product(out_dims@),
                tensor.wf(),
                *dims == tensor.shape.dims,
                dim1 < dims@.len(),
                dim2 < dims@.len(),
                out_dims@ == swap_axes(dims@, dim1 as int, dim2 as int),
                out@.len() == j,
                forall|k: int|
                    0 <= k < j ==> #[trigger] out@[k] == tensor.at(
                        swap_axes(unravel(out_dims@, k), dim1 as int, dim2 as int),
                    ),
            decreases n - j,
        {
            let mut u = unravel_index(&out_dims, j);
            let ghost ui = as_index(u@);
            let x1 = u[dim1];
            let x2 = u[dim2];
            u.set(dim1, x2);
            u.set(dim2, x1);
            proof {
                assert(as_index(u@) =~= swap_axes(ui, dim1 as int, dim2 as int));
                assert forall|b: int| 0 <= b < dims@.len() implies 0 <= #[trigger] as_index(u@)[b]
                    < dims@[b] by {
                    if b == dim1 {
                        assert(0 <= ui[dim2 as int] < out_dims@[dim2 as int]);
                    } else if b == dim2 {
                        assert(0 <= ui[dim1 as int] < out_dims@[dim1 as int]);
                    } else {
                        assert(0 <= ui[b] < out_dims@[b]);
                    }
                }
            }
            let p = ravel_index(dims, &u);
            out.push(tensor.data[p]);
            j = j + 1;
        }
        NdArrayTensor { shape: Shape { dims: out_dims }, data: out }
    }

    /// Reverses the order of the elements along every listed axis.
    pub fn flip(tensor: NdArrayTensor<E>, axes: Vec<usize>) -> (r: NdArrayTensor<E>)
        requires
            tensor.wf(),
            forall|k: int| 0 <= k < axes@.len() ==> #[trigger] axes@[k] < tensor.dims().len(),
        ensures
            r.wf(),
            r.dims() == tensor.dims(),
            forall|j: int|
                0 <= j < r.values().len() ==> #[trigger] r.values()[j] == tensor.at(
                    flipped(unravel(tensor.dims(), j), tensor.dims(), axes@),
                ),
    {
        let dims = &tensor.shape.dims;
        let rank = dims.len();
        let mut listed: Vec<bool> = Vec::new();
        let mut a: usize = 0;
        while a < rank
            invariant
                a <= rank,
                rank == dims@.len(),
                listed@.len() == a,
                forall|b: int| 0 <= b < a ==> #[trigger] listed@[b] == axes@.contains(b as usize),
            decreases rank - a,
        {
            let mut found = false;
            let mut k: usize = 0;
            while k < axes.len()
                invariant
                    k <= axes@.len(),
                    found == exists|i: int| 0 <= i < k && axes@[i] == a,
                decreases axes@.len() - k,
            {
                if axes[k] == a {
                    found = true;
                }
                k = k + 1;
            }
            listed.push(found);
            a = a + 1;
        }
        let n = tensor.data.len();
        let mut out: Vec<E> = Vec::new();
        let mut j: usize = 0;
        while j < n
            invariant
                j <= n,
                n == product(dims@),
                tensor.wf(),
                *dims == tensor.shape.dims,
                rank == dims@.len(),
                listed@.len() == rank,
                forall|b: int| 0 <= b < rank ==> #[trigger] listed@[b] == axes@.contains(b as usize),
                out@.len() == j,
                forall|q: int|
                    0 <= q < j ==> #[trigger] out@[q] == tensor.at(
                        flipped(unravel(dims@, q), dims@, axes@),
                    ),
            decreases n - j,
        {
            let mut u = unravel_index(dims, j);
            let ghost u0 = as_index(u@);
            let mut b: usize = 0;
            while b < rank
                invariant
                    b <= rank,
                    rank == dims@.len(),
                    u@.len() == rank,
                    listed@.len() == rank,
                    in_bounds(dims@, u0),
                    forall|c: int| 0 <= c < b ==> #[trigger] u@[c] as int == (if listed@[c] {
                        dims@[c] - 1 - u0[c]
                    } else {
                        u0[c]
                    }),
                    forall|c: int| b <= c < rank ==> #[trigger] u@[c] as int == u0[c],
                decreases rank - b,
            {
                if listed[b] {
                    assert(0 <= u0[b as int] < dims@[b as int]);
                    let v = dims[b] - 1 - u[b];
                    u.set(b, v);
                }
                b = b + 1;
            }
            proof {
                assert(as_index(u@) =~= flipped(u0, dims@, axes@));
                assert forall|c: int| 0 <= c < rank implies 0 <= #[trigger] as_index(u@)[c]
                    < dims@[c] by {
                    assert(0 <= u0[c] < dims@[c]);
                }
            }
            let p = ravel_index(dims, &u);
            out.push(tensor.data[p]);
            j = j + 1;
        }
        NdArrayTensor { shape: tensor.shape, data: out }
    }

    /// Reorders the axes: axis `a` of the result is axis `perm[a]` of `tensor`.
    pub fn permute(tensor: NdArrayTensor<E>, perm: Vec<usize>) -> (r: NdArrayTensor<E>)
        requires
            tensor.wf(),
            is_permutation(perm@, tensor.dims().len() as int),
            product(permuted_dims(tensor.dims(), perm@)) <= usize::MAX,
        ensures
            r.wf(),
            r.dims() == permuted_dims(tensor.dims(), perm@),
            forall|j: int|
                0 <= j < r.values().len() ==> #[trigger] r.values()[j] == tensor.at(
                    unpermuted(unravel(r.dims(), j), perm@),
                ),
    {
        let dims = &tensor.shape.dims;
        let rank = dims.len();
        let mut out_dims: Vec<usize> = Vec::new();
        let mut a: usize = 0;
        while a < rank
            invariant
                a <= rank,
                rank == dims@.len(),
                is_permutation(perm@, rank as int),
                out_dims@ =~= permuted_dims(dims@, perm@).subrange(0, a as int),
            decreases rank - a,
        {
            out_dims.push(dims[perm[a]]);
            a = a + 1;
        }
        assert(out_dims@ =~= permuted_dims(dims@, perm@));
        let n = num_elements_of(&out_dims);
        let mut out: Vec<E> = Vec::new();
        let mut j: usize = 0;
        while j < n
            invariant
                j <= n,
                n == product(out_dims@),
                tensor.wf(),
                *dims == tensor.shape.dims,
                rank == dims@.len(),
                is_permutation(perm@, rank as int),
                out_dims@ == permuted_dims(dims@, perm@),
                out@.len() == j,
                forall|q: int|
                    0 <= q < j ==> #[trigger] out@[q] == tensor.at(
                        unpermuted(unravel(out_dims@, q), perm@),
                    ),
            decreases n - j,
        {
            let u = unravel_index(&out_dims, j);
            let ghost u0 = as_index(u@);
            let mut v: Vec<usize> = Vec::new();
            let mut k: usize = 0;
            while k < rank
                invariant
                    k <= rank,
                    v@.len() == k,
                decreases rank - k,
            {
                v.push(0);
                k = k + 1;
            }
            let mut a: usize = 0;
            while a < rank
                invariant
                    a <= rank,
                    rank == dims@.len(),
                    v@.len() == rank,
                    u@.len() == rank,
                    is_permutation(perm@, rank as int),
                    forall|c: int| 0 <= c < a ==> #[trigger] v@[perm@[c] as int] == u@[c],
                decreases rank - a,
            {
                let ghost before = v@;
                v.set(perm[a], u[a]);
                proof {
                    assert forall|c: int| 0 <= c < a + 1 implies #[trigger] v@[perm@[c] as int]
                        == u@[c] by {
                        if c < a {
                            assert(perm@[c] != perm@[a as int]);
                        }
                    }
                }
                a = a + 1;
            }
            proof {
                assert forall|b: int| 0 <= b < rank implies #[trigger] as_index(v@)[b] == unpermuted(
                    u0,
                    perm@,
                )[b] && 0 <= as_index(v@)[b] < dims@[b] by {
                    assert(perm@.contains(b as usize));
                    let c = choose|c: int| 0 <= c < perm@.len() && perm@[c] as int == b;
                    assert(v@[perm@[c] as int] == u@[c]);
                    assert(0 <= u0[c] < out_dims@[c]);
                }
                assert(as_index(v@) =~= unpermuted(u0, perm@));
            }
            let p = ravel_index(dims, &v);
            out.push(tensor.data[p]);
            j = j + 1;
        }
        NdArrayTensor { shape: Shape { dims: out_dims }, data: out }
    }

    /// Surrounds the tensor with `before[a]` copies of `value` ahead of axis `a`
    /// and `after[a]` behind it.
    pub fn pad(tensor: NdArrayTensor<E>, before: Vec<usize>, after: Vec<usize>, value: E) -> (r:
        NdArrayTensor<E>)
        requires
            tensor.wf(),
            before@.len() == tensor.dims().len(),
            after@.len() == tensor.dims().len(),
            forall|a: int|
                0 <= a < tensor.dims().len() ==> #[trigger] before@[a] + tensor.dims()[a] + after@[a]
                    <= usize::MAX,
            product(
                Seq::new(
                    tensor.dims().len(),
                    |a: int| (before@[a] + tensor.dims()[a] + after@[a]) as usize,
                ),
            ) <= usize::MAX,
        ensures
            r.wf(),
            r.dims() == Seq::new(
                tensor.dims().len(),
                |a: int| (before@[a] + tensor.dims()[a] + after@[a]) as usize,
            ),
            forall|j: int|
                0 <= j < r.values().len() ==> #[trigger] r.values()[j] == if in_box(
                    unravel(r.dims(), j),
                    pad_ranges(tensor.dims(), before@),
                ) {
                    tensor.at(unshifted(unravel(r.dims(), j), pad_ranges(tensor.dims(), before@)))
                } else {
                    value
                },
    {
        let dims = &tensor.shape.dims;
        let rank = dims.len();
        let mut out_dims: Vec<usize> = Vec::new();
        let mut ranges: Vec<Range<usize>> = Vec::new();
        let ghost target = Seq::new(
            dims@.len(),
            |a: int| (before@[a] + dims@[a] + after@[a]) as usize,
        );
        let mut a: usize = 0;
        while a < rank
            invariant
                a <= rank,
                rank == dims@.len(),
                before@.len() == rank,
                after@.len() == rank,
                forall|b: int| 0 <= b < rank ==> #[trigger] before@[b] + dims@[b] + after@[b]
                    <= usize::MAX,
                target == Seq::new(
                    dims@.len(),
                    |b: int| (before@[b] + dims@[b] + after@[b]) as usize,
                ),
                out_dims@ =~= target.subrange(0, a as int),
                ranges@ =~= pad_ranges(dims@, before@).subrange(0, a as int),
            decreases rank - a,
        {
            assert(before@[a as int] + dims@[a as int] + after@[a as int] <= usize::MAX);
            out_dims.push(before[a] + dims[a] + after[a]);
            ranges.push(Range { start: before[a], end: before[a] + dims[a] });
            a = a + 1;
        }
        let ghost od = out_dims@;
        let ghost rg = ranges@;
        assert(od =~= target);
        assert(rg =~= pad_ranges(dims@, before@));
        let canvas = full(Shape { dims: out_dims }, value);
        if tensor.data.len() == 0 {
            proof {
                assert forall|j: int| 0 <= j < canvas.values().len() implies !in_box(
                    unravel(od, j),
                    rg,
                ) by {
                    lemma_unravel_in_bounds(od, j);
                    crate::shape::lemma_product_positive(od);
                    if in_box(unravel(od, j), rg) {
                        assert forall|b: int| 0 <= b < rank implies #[trigger] dims@[b] > 0 by {
                            assert(rg[b].start <= unravel(od, j)[b] < rg[b].end);
                        }
                        crate::shape::lemma_product_nonzero(dims@);
                    }
                }
            }
            return canvas;
        }
        proof {
            crate::shape::lemma_product_positive(dims@);
            assert(sliced_dims(od, rg) =~= dims@);
        }
        NdArrayOps::index_assign(canvas, ranges, tensor)
    }

    /// Replaces the elements of `tensor` with those of `src`, which has the same shape.
    pub fn copy_(tensor: &mut NdArrayTensor<E>, src: NdArrayTensor<E>)
        requires
            old(tensor).wf(),
            src.wf(),
            src.dims() == old(tensor).dims(),
        ensures
            final(tensor).wf(),
            final(tensor).dims() == old(tensor).dims(),
            final(tensor).values() == src.values(),
    {
        tensor.data = src.data;
    }

    /// The same elements under another shape with the same element count.
    pub fn reshape(tensor: NdArrayTensor<E>, shape: Shape) -> (r: NdArrayTensor<E>)
        requires
            tensor.wf(),
            shape.wf(),
            product(shape.dims@) == product(tensor.dims()),
        ensures
            r.wf(),
            r.dims() == shape.dims@,
            r.values() == tensor.values(),
    {
        NdArrayTensor { shape, data: tensor.data }
    }
}

} // verus!
