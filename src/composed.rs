//! Operations that every backend gains for free: they are built only from the
//! primitives of the contract, so they hold for any backend that meets it.

use core::ops::Range;
use vstd::prelude::*;

use crate::backend::IntTensorOps;
use crate::reduce::{is_first_max, is_first_min, reduced_dims};
use crate::shape::{
    lemma_product_positive, lemma_product_single, lemma_unravel_in_bounds, num_elements_of,
    product, ravel, unravel, Shape,
};
use crate::tensor::{in_box, sliced_dims, unshifted, Data, NdArrayTensor};

verus! {

/// `r` repeats `t` (whose axis `dim` has size 1) `times` times along `dim`.
pub open spec fn repeated(t: NdArrayTensor<i64>, dim: int, times: usize, r: NdArrayTensor<i64>) -> bool {
    &&& r.wf()
    &&& r.dims() == t.dims().update(dim, times)
    &&& forall|j: int|
        0 <= j < r.values().len() ==> #[trigger] r.values()[j] == t.at(
            unravel(r.dims(), j).update(dim, 0),
        )
}

/// `v` is the largest element along axis `dim` through `idx`.
pub open spec fn is_max_value(t: NdArrayTensor<i64>, idx: Seq<int>, dim: int, v: i64) -> bool {
    exists|m: int| is_first_max(t, idx, dim, m) && v == t.at(idx.update(dim, m))
}

/// `v` is the smallest element along axis `dim` through `idx`.
pub open spec fn is_min_value(t: NdArrayTensor<i64>, idx: Seq<int>, dim: int, v: i64) -> bool {
    exists|m: int| is_first_min(t, idx, dim, m) && v == t.at(idx.update(dim, m))
}

/// Tensors with the same sizes and elements have the same extreme positions.
pub proof fn lemma_first_extreme_same_view(
    a: NdArrayTensor<i64>,
    b: NdArrayTensor<i64>,
    idx: Seq<int>,
    dim: int,
    m: int,
)
    requires
        a.dims() == b.dims(),
        a.values() == b.values(),
    ensures
        is_first_max(a, idx, dim, m) == is_first_max(b, idx, dim, m),
        is_first_min(a, idx, dim, m) == is_first_min(b, idx, dim, m),
{
    assert forall|k: int|
        #![trigger a.at(idx.update(dim, k))]
        #![trigger b.at(idx.update(dim, k))]
        a.at(idx.update(dim, k)) == b.at(idx.update(dim, k)) by {}
}

/// The ranges that select slot `i` of axis `dim` and every position of the other axes.
fn slot_ranges(dims: &Vec<usize>, dim: usize, i: usize) -> (r: Vec<Range<usize>>)
    requires
        dim < dims@.len(),
        i < dims@[dim as int],
    ensures
        r@.len() == dims@.len(),
        forall|a: int|
            0 <= a < dims@.len() ==> (#[trigger] r@[a]).start == (if a == dim {
                i
            } else {
                0
            }) && r@[a].end == (if a == dim {
                i + 1
            } else {
                dims@[a] as int
            }),
{
    let mut r: Vec<Range<usize>> = Vec::new();
    let mut a: usize = 0;
    while a < dims.len()
        invariant
            a <= dims@.len(),
            dim < dims@.len(),
            i < dims@[dim as int],
            r@.len() == a,
            forall|b: int|
                0 <= b < a ==> (#[trigger] r@[b]).start == (if b == dim {
                    i
                } else {
                    0
                }) && r@[b].end == (if b == dim {
                    i + 1
                } else {
                    dims@[b] as int
                }),
        decreases dims@.len() - a,
    {
        if a == dim {
            r.push(Range { start: i, end: i + 1 });
        } else {
            r.push(Range { start: 0, end: dims[a] });
        }
        a = a + 1;
    }
    r
}

/// Repeats a tensor `times` times along axis `dim`, which must have size 1, by
/// writing one copy into each slot of an empty result. `None` when that axis
/// does not have size 1.
pub fn repeat<B: IntTensorOps>(tensor: NdArrayTensor<i64>, dim: usize, times: usize) -> (r: Option<
    NdArrayTensor<i64>,
>)
    requires
        tensor.wf(),
        dim < tensor.dims().len(),
        product(tensor.dims().update(dim as int, times)) <= usize::MAX,
    ensures
        r is Some <==> tensor.dims()[dim as int] == 1,
        r matches Some(t) ==> repeated(tensor, dim as int, times, t),
{
    let shape = B::int_shape(&tensor);
    if shape.dims[dim] != 1 {
        return None;
    }
    let mut dims = shape.dims;
    dims.set(dim, times);
    let out_dims = Shape { dims };
    let ghost od = out_dims.dims@;
    assert(od == tensor.dims().update(dim as int, times));
    let n = num_elements_of(&out_dims.dims);
    let mut output = B::int_empty(out_dims.clone_shape());
    if n == 0 {
        assert(output.values().len() == 0);
        return Some(output);
    }
    proof {
        lemma_product_positive(od);
        assert forall|j: int|
            0 <= j < n && unravel(od, j)[dim as int] < 0 implies #[trigger] output.values()[j]
                == tensor.at(unravel(od, j).update(dim as int, 0)) by {
            lemma_unravel_in_bounds(od, j);
        }
    }
    let mut i: usize = 0;
    while i < times
        invariant
            i <= times,
            od == out_dims.dims@,
            od == tensor.dims().update(dim as int, times),
            tensor.wf(),
            tensor.dims()[dim as int] == 1,
            dim < od.len(),
            dim < tensor.dims().len(),
            n == product(od),
            n > 0,
            forall|a: int| 0 <= a < od.len() ==> #[trigger] od[a] > 0,
            output.wf(),
            output.dims() == od,
            forall|j: int|
                0 <= j < n && unravel(od, j)[dim as int] < i ==> #[trigger] output.values()[j]
                    == tensor.at(unravel(od, j).update(dim as int, 0)),
        decreases times - i,
    {
        let ranges = slot_ranges(&out_dims.dims, dim, i);
        let ghost rg = ranges@;
        proof {
            assert(sliced_dims(od, rg) =~= tensor.dims());
        }
        let value = tensor.duplicate();
        let ghost before = output;
        output = B::int_index_assign(output, ranges, value);
        proof {
            assert forall|j: int|
                0 <= j < n && unravel(od, j)[dim as int] < i + 1 implies #[trigger] output.values()[j]
                == tensor.at(unravel(od, j).update(dim as int, 0)) by {
                lemma_unravel_in_bounds(od, j);
                let u = unravel(od, j);
                if u[dim as int] == i {
                    assert(in_box(u, rg));
                    assert(unshifted(u, rg) =~= u.update(dim as int, 0));
                } else {
                    assert(!in_box(u, rg));
                }
            }
        }
        i = i + 1;
    }
    proof {
        assert forall|j: int| 0 <= j < output.values().len() implies #[trigger] output.values()[j]
            == tensor.at(unravel(output.dims(), j).update(dim as int, 0)) by {
            lemma_unravel_in_bounds(od, j);
        }
    }
    Some(output)
}

/// The integers `range.start, ..., range.end - 1` as a tensor of rank 1.
pub fn arange<B: IntTensorOps>(range: Range<usize>) -> (r: NdArrayTensor<i64>)
    requires
        range.start <= range.end <= i64::MAX,
    ensures
        r.wf(),
        r.dims() == seq![(range.end - range.start) as usize],
        forall|k: int| 0 <= k < r.values().len() ==> #[trigger] r.values()[k] == range.start + k,
{
    let mut value: Vec<i64> = Vec::new();
    let mut i: usize = range.start;
    while i < range.end
        invariant
            range.start <= i <= range.end <= i64::MAX,
            value@.len() == i - range.start,
            forall|k: int| 0 <= k < value@.len() ==> #[trigger] value@[k] == range.start + k,
        decreases range.end - i,
    {
        value.push(i as i64);
        i = i + 1;
    }
    let mut dims: Vec<usize> = Vec::new();
    dims.push(range.end - range.start);
    proof {
        crate::shape::lemma_product_single((range.end - range.start) as usize);
        assert(dims@ =~= seq![(range.end - range.start) as usize]);
    }
    B::int_from_data(Data::new(value, Shape::new(dims)))
}

/// The largest elements along axis `dim`, with their first positions.
pub fn max_dim_with_indexes<B: IntTensorOps>(tensor: NdArrayTensor<i64>, dim: usize) -> (r: (
    NdArrayTensor<i64>,
    NdArrayTensor<i64>,
))
    requires
        tensor.wf(),
        dim < tensor.dims().len(),
        0 < tensor.dims()[dim as int] <= i64::MAX,
    ensures
        r.0.wf(),
        r.1.wf(),
        r.0.dims() == reduced_dims(tensor.dims(), dim as int),
        r.1.dims() == reduced_dims(tensor.dims(), dim as int),
        forall|j: int|
            0 <= j < r.1.values().len() ==> is_first_max(
                tensor,
                unravel(r.1.dims(), j),
                dim as int,
                #[trigger] r.1.values()[j] as int,
            ),
        forall|j: int|
            0 <= j < r.0.values().len() ==> #[trigger] r.0.values()[j] == tensor.at(
                unravel(r.0.dims(), j).update(dim as int, r.1.values()[j] as int),
            ),
{
    let dup = tensor.duplicate();
    let index = B::int_argmax(dup, dim);
    proof {
        assert forall|j: int| 0 <= j < index.values().len() implies is_first_max(
            tensor,
            unravel(index.dims(), j),
            dim as int,
            #[trigger] index.values()[j] as int,
        ) by {
            lemma_first_extreme_same_view(dup, tensor, unravel(index.dims(), j), dim as int, index.values()[j] as int);
        }
        assert forall|p: int| 0 <= p < index.values().len() implies 0 <= #[trigger] index.values()[p]
            < tensor.dims()[dim as int] by {
            assert(is_first_max(
                tensor,
                unravel(index.dims(), p),
                dim as int,
                index.values()[p] as int,
            ));
        }
    }
    let values = B::int_gather(tensor, dim, index.duplicate());
    (values, index)
}

/// The smallest elements along axis `dim`, with their first positions.
pub fn min_dim_with_indexes<B: IntTensorOps>(tensor: NdArrayTensor<i64>, dim: usize) -> (r: (
    NdArrayTensor<i64>,
    NdArrayTensor<i64>,
))
    requires
        tensor.wf(),
        dim < tensor.dims().len(),
        0 < tensor.dims()[dim as int] <= i64::MAX,
    ensures
        r.0.wf(),
        r.1.wf(),
        r.0.dims() == reduced_dims(tensor.dims(), dim as int),
        r.1.dims() == reduced_dims(tensor.dims(), dim as int),
        forall|j: int|
            0 <= j < r.1.values().len() ==> is_first_min(
                tensor,
                unravel(r.1.dims(), j),
                dim as int,
                #[trigger] r.1.values()[j] as int,
            ),
        forall|j: int|
            0 <= j < r.0.values().len() ==> #[trigger] r.0.values()[j] == tensor.at(
                unravel(r.0.dims(), j).update(dim as int, r.1.values()[j] as int),
            ),
{
    let dup = tensor.duplicate();
    let index = B::int_argmin(dup, dim);
    proof {
        assert forall|j: int| 0 <= j < index.values().len() implies is_first_min(
            tensor,
            unravel(index.dims(), j),
            dim as int,
            #[trigger] index.values()[j] as int,
        ) by {
            lemma_first_extreme_same_view(dup, tensor, unravel(index.dims(), j), dim as int, index.values()[j] as int);
        }
        assert forall|p: int| 0 <= p < index.values().len() implies 0 <= #[trigger] index.values()[p]
            < tensor.dims()[dim as int] by {
            assert(is_first_min(
                tensor,
                unravel(index.dims(), p),
                dim as int,
                index.values()[p] as int,
            ));
        }
    }
    let values = B::int_gather(tensor, dim, index.duplicate());
    (values, index)
}

/// The largest elements along axis `dim`.
pub fn max_dim<B: IntTensorOps>(tensor: NdArrayTensor<i64>, dim: usize) -> (r: NdArrayTensor<i64>)
    requires
        tensor.wf(),
        dim < tensor.dims().len(),
        0 < tensor.dims()[dim as int] <= i64::MAX,
    ensures
        r.wf(),
        r.dims() == reduced_dims(tensor.dims(), dim as int),
        forall|j: int|
            0 <= j < r.values().len() ==> is_max_value(
                tensor,
                unravel(r.dims(), j),
                dim as int,
                #[trigger] r.values()[j],
            ),
{
    let (values, index) = max_dim_with_indexes::<B>(tensor, dim);
    proof {
        assert forall|j: int| 0 <= j < values.values().len() implies is_max_value(
            tensor,
            unravel(values.dims(), j),
            dim as int,
            #[trigger] values.values()[j],
        ) by {
            let m = index.values()[j] as int;
            assert(is_first_max(tensor, unravel(index.dims(), j), dim as int, m));
            assert(values.values()[j] == tensor.at(unravel(values.dims(), j).update(dim as int, m)));
        }
    }
    values
}

/// The smallest elements along axis `dim`.
pub fn min_dim<B: IntTensorOps>(tensor: NdArrayTensor<i64>, dim: usize) -> (r: NdArrayTensor<i64>)
    requires
        tensor.wf(),
        dim < tensor.dims().len(),
        0 < tensor.dims()[dim as int] <= i64::MAX,
    ensures
        r.wf(),
        r.dims() == reduced_dims(tensor.dims(), dim as int),
        forall|j: int|
            0 <= j < r.values().len() ==> is_min_value(
                tensor,
                unravel(r.dims(), j),
                dim as int,
                #[trigger] r.values()[j],
            ),
{
    let (values, index) = min_dim_with_indexes::<B>(tensor, dim);
    proof {
        assert forall|j: int| 0 <= j < values.values().len() implies is_min_value(
            tensor,
            unravel(values.dims(), j),
            dim as int,
            #[trigger] values.values()[j],
        ) by {
            let m = index.values()[j] as int;
            assert(is_first_min(tensor, unravel(index.dims(), j), dim as int, m));
            assert(values.values()[j] == tensor.at(unravel(values.dims(), j).update(dim as int, m)));
        }
    }
    values
}

/// Position `m` of `s` holds its largest element, and no earlier position an equal one.
pub open spec fn is_first_max_of(s: Seq<i64>, m: int) -> bool {
    &&& 0 <= m < s.len()
    &&& forall|k: int| 0 <= k < s.len() ==> #[trigger] s[k] <= s[m]
    &&& forall|k: int| 0 <= k < m ==> #[trigger] s[k] < s[m]
}

/// Position `m` of `s` holds its smallest element, and no earlier position an equal one.
pub open spec fn is_first_min_of(s: Seq<i64>, m: int) -> bool {
    &&& 0 <= m < s.len()
    &&& forall|k: int| 0 <= k < s.len() ==> #[trigger] s[k] >= s[m]
    &&& forall|k: int| 0 <= k < m ==> #[trigger] s[k] > s[m]
}

/// In a tensor of rank 1, the element at `[k]` is element `k`.
proof fn lemma_rank_one_at(t: NdArrayTensor<i64>, k: int)
    requires
        t.dims().len() == 1,
    ensures
        t.at(seq![0int].update(0, k)) == t.values()[k],
{
    assert(seq![0int].update(0, k) =~= seq![k]);
    let d = t.dims();
    assert(d.drop_last().len() == 0);
    assert(seq![k].drop_last().len() == 0);
    assert(ravel(d.drop_last(), seq![k].drop_last()) == 0);
    assert(ravel(d, seq![k]) == 0 * (d.last() as int) + k);
}

/// The first position of the largest element of a tensor seen as a flat sequence.
fn flat_extreme<B: IntTensorOps>(tensor: NdArrayTensor<i64>, largest: bool) -> (r: (
    NdArrayTensor<i64>,
    NdArrayTensor<i64>,
))
    requires
        tensor.wf(),
        0 < tensor.values().len() <= i64::MAX,
    ensures
        r.0.wf(),
        r.0.dims() == seq![1usize],
        r.1.values().len() == 1,
        largest ==> is_first_max_of(tensor.values(), r.1.values()[0] as int),
        !largest ==> is_first_min_of(tensor.values(), r.1.values()[0] as int),
        r.0.values() == seq![tensor.values()[r.1.values()[0] as int]],
{
    let n = tensor.data.len();
    let mut flat: Vec<usize> = Vec::new();
    flat.push(n);
    proof {
        lemma_product_single(n);
        assert(flat@ =~= seq![n]);
    }
    let ghost values = tensor.values();
    let reshaped = B::int_reshape(tensor, Shape::new(flat));
    let (extremes, index) = if largest {
        max_dim_with_indexes::<B>(reshaped, 0)
    } else {
        min_dim_with_indexes::<B>(reshaped, 0)
    };
    proof {
        lemma_product_single(1);
        assert(reduced_dims(seq![n], 0) =~= seq![1usize]);
        assert(unravel(seq![1usize], 0) =~= seq![0int]) by {
            let d = seq![1usize];
            assert(d.drop_last() =~= Seq::<usize>::empty());
            assert(unravel(d.drop_last(), 0) =~= Seq::<int>::empty());
            assert(d.last() == 1);
            assert(unravel(d, 0) == unravel(d.drop_last(), 0int / 1int).push(0int % 1int));
        }
        let m = index.values()[0] as int;
        assert forall|k: int| 0 <= k < n implies #[trigger] values[k] == reshaped.at(
            seq![0int].update(0, k),
        ) by {
            lemma_rank_one_at(reshaped, k);
        }
        if largest {
            assert(is_first_max(reshaped, seq![0int], 0, m));
        } else {
            assert(is_first_min(reshaped, seq![0int], 0, m));
        }
        assert(extremes.values()[0] == reshaped.at(seq![0int].update(0, m)));
        assert(extremes.values() =~= seq![values[m]]);
    }
    (extremes, index)
}

/// The largest element of the whole tensor, as a one-element tensor of rank 1.
pub fn max<B: IntTensorOps>(tensor: NdArrayTensor<i64>) -> (r: NdArrayTensor<i64>)
    requires
        tensor.wf(),
        0 < tensor.values().len() <= i64::MAX,
    ensures
        r.wf(),
        r.dims() == seq![1usize],
        exists|m: int| is_first_max_of(tensor.values(), m) && r.values() == seq![tensor.values()[m]],
{
    let ghost values = tensor.values();
    let (extremes, index) = flat_extreme::<B>(tensor, true);
    assert(is_first_max_of(values, index.values()[0] as int));
    extremes
}

/// The smallest element of the whole tensor, as a one-element tensor of rank 1.
pub fn min<B: IntTensorOps>(tensor: NdArrayTensor<i64>) -> (r: NdArrayTensor<i64>)
    requires
        tensor.wf(),
        0 < tensor.values().len() <= i64::MAX,
    ensures
        r.wf(),
        r.dims() == seq![1usize],
        exists|m: int| is_first_min_of(tensor.values(), m) && r.values() == seq![tensor.values()[m]],
{
    let ghost values = tensor.values();
    let (extremes, index) = flat_extreme::<B>(tensor, false);
    assert(is_first_min_of(values, index.values()[0] as int));
    extremes
}

/// The ranges that keep `length` positions from `start` on axis `dim` and every
/// position of the axes before it.
fn narrow_ranges(dims: &Vec<usize>, dim: usize, start: usize, length: usize) -> (r: Vec<
    Range<usize>,
>)
    requires
        dim < dims@.len(),
        start + length <= dims@[dim as int],
    ensures
        r@.len() == dim + 1,
        forall|a: int|
            0 <= a <= dim ==> (#[trigger] r@[a]).start == (if a == dim {
                start
            } else {
                0
            }) && r@[a].end == (if a == dim {
                start + length
            } else {
                dims@[a] as int
            }),
{
    let mut r: Vec<Range<usize>> = Vec::new();
    let rank = dims.len();
    let mut a: usize = 0;
    while a <= dim
        invariant
            rank == dims@.len(),
            a <= dim + 1,
            dim < dims@.len(),
            start + length <= dims@[dim as int],
            r@.len() == a,
            forall|b: int|
                0 <= b < a ==> (#[trigger] r@[b]).start == (if b == dim {
                    start
                } else {
                    0
                }) && r@[b].end == (if b == dim {
                    start + length
                } else {
                    dims@[b] as int
                }),
        decreases dim + 1 - a,
    {
        if a == dim {
            r.push(Range { start, end: start + length });
        } else {
            r.push(Range { start: 0, end: dims[a] });
        }
        a = a + 1;
    }
    r
}

/// The `length` positions from `start` on along axis `dim`; every other axis whole.
pub fn narrow<B: IntTensorOps>(tensor: NdArrayTensor<i64>, dim: usize, start: usize, length: usize) -> (r:
    NdArrayTensor<i64>)
    requires
        tensor.wf(),
        dim < tensor.dims().len(),
        0 < length,
        start + length <= tensor.dims()[dim as int],
    ensures
        r.wf(),
        r.dims() == tensor.dims().update(dim as int, length),
        forall|j: int|
            0 <= j < r.values().len() ==> #[trigger] r.values()[j] == tensor.at(
                unravel(r.dims(), j).update(dim as int, unravel(r.dims(), j)[dim as int] + start),
            ),
{
    let shape = B::int_shape(&tensor);
    let ghost td = tensor.dims();
    let mut out_dims = shape.dims;
    out_dims.set(dim, length);
    let ghost od = out_dims@;
    proof {
        crate::tensor::lemma_product_le(od, td);
    }
    let total = num_elements_of(&out_dims);
    if total == 0 {
        let r = B::int_empty(Shape { dims: out_dims });
        return r;
    }
    proof {
        lemma_product_positive(od);
    }
    let ranges = narrow_ranges(&tensor.shape.dims, dim, start, length);
    let ghost rg = ranges@;
    let ghost t0 = tensor;
    proof {
        assert forall|a: int| 0 <= a < rg.len() implies (#[trigger] rg[a]).start < rg[a].end
            && rg[a].end <= td[a] by {
            if a != dim {
                assert(od[a] > 0);
            }
        }
        assert(sliced_dims(td, rg) =~= od);
    }
    let r = B::int_index(tensor, ranges);
    proof {
        assert forall|j: int| 0 <= j < r.values().len() implies #[trigger] r.values()[j] == t0.at(
            unravel(od, j).update(dim as int, unravel(od, j)[dim as int] + start),
        ) by {
            lemma_unravel_in_bounds(od, j);
            let u = unravel(od, j);
            assert(crate::tensor::shifted(u, rg) =~= u.update(dim as int, u[dim as int] + start));
        }
    }
    r
}

/// Takes `tensor`'s element where `condition` holds and `other`'s elsewhere.
pub fn where_self<B: IntTensorOps>(
    tensor: NdArrayTensor<i64>,
    condition: NdArrayTensor<bool>,
    other: NdArrayTensor<i64>,
) -> (r: NdArrayTensor<i64>)
    requires
        tensor.wf(),
        condition.wf(),
        other.wf(),
        condition.dims() == tensor.dims(),
        other.dims() == tensor.dims(),
    ensures
        r.wf(),
        r.dims() == tensor.dims(),
        forall|j: int|
            0 <= j < r.values().len() ==> #[trigger] r.values()[j] == if condition.values()[j] {
                tensor.values()[j]
            } else {
                other.values()[j]
            },
{
    B::int_mask_scatter(other, condition, tensor)
}

/// Exchanges the last two axes.
pub fn transpose<B: IntTensorOps>(tensor: NdArrayTensor<i64>) -> (r: NdArrayTensor<i64>)
    requires
        tensor.wf(),
        tensor.dims().len() >= 2,
    ensures
        r.wf(),
        r.dims() == crate::shape::swap_axes(
            tensor.dims(),
            tensor.dims().len() - 2,
            tensor.dims().len() - 1,
        ),
        forall|j: int|
            0 <= j < r.values().len() ==> #[trigger] r.values()[j] == tensor.at(
                crate::shape::swap_axes(
                    unravel(r.dims(), j),
                    tensor.dims().len() - 2,
                    tensor.dims().len() - 1,
                ),
            ),
{
    let d = tensor.shape.dims.len();
    B::int_swap_dims(tensor, d - 2, d - 1)
}

} // verus!
