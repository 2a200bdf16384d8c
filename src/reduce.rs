//! Reductions, arg-extrema, gathers and scatter-adds of the CPU backend.

use vstd::prelude::*;

use crate::math::{quotient, NdArrayMathOps};
use crate::shape::{
    as_index, in_bounds, lemma_product_single, num_elements_of, product, ravel, ravel_index,
    unravel, unravel_index, Shape,
};
use crate::tensor::{lemma_product_le, NdArrayTensor};

verus! {

/// `dims` with axis `dim` reduced to size 1 (keep-dims convention).
pub open spec fn reduced_dims(dims: Seq<usize>, dim: int) -> Seq<usize> {
    dims.update(dim, 1)
}

/// Wrapping sum of the first `k` elements of `s`.
pub open spec fn total(s: Seq<i64>, k: int) -> i64
    decreases k,
{
    if k <= 0 {
        0
    } else {
        total(s, k - 1).wrapping_add(s[k - 1])
    }
}

/// Wrapping sum of the first `k` elements along axis `dim` through multi-index `idx`.
pub open spec fn axis_sum(t: NdArrayTensor<i64>, idx: Seq<int>, dim: int, k: int) -> i64
    decreases k,
{
    if k <= 0 {
        0
    } else {
        axis_sum(t, idx, dim, k - 1).wrapping_add(t.at(idx.update(dim, k - 1)))
    }
}

/// Position `m` holds the largest element along axis `dim` through `idx`, and no
/// earlier position holds an equal one.
pub open spec fn is_first_max(t: NdArrayTensor<i64>, idx: Seq<int>, dim: int, m: int) -> bool {
    &&& 0 <= m < t.dims()[dim]
    &&& forall|k: int|
        0 <= k < t.dims()[dim] ==> #[trigger] t.at(idx.update(dim, k)) <= t.at(idx.update(dim, m))
    &&& forall|k: int| 0 <= k < m ==> #[trigger] t.at(idx.update(dim, k)) < t.at(idx.update(dim, m))
}

/// Position `m` holds the smallest element along axis `dim` through `idx`, and no
/// earlier position holds an equal one.
pub open spec fn is_first_min(t: NdArrayTensor<i64>, idx: Seq<int>, dim: int, m: int) -> bool {
    &&& 0 <= m < t.dims()[dim]
    &&& forall|k: int|
        0 <= k < t.dims()[dim] ==> #[trigger] t.at(idx.update(dim, k)) >= t.at(idx.update(dim, m))
    &&& forall|k: int| 0 <= k < m ==> #[trigger] t.at(idx.update(dim, k)) > t.at(idx.update(dim, m))
}

/// The flat position of `u` with axis `dim` moved to `k`.
pub fn position_along(u: &Vec<usize>, dims: &Vec<usize>, dim: usize, k: usize) -> (r: usize)
    requires
        u@.len() == dims@.len(),
        dim < dims@.len(),
        k < dims@[dim as int],
        forall|a: int| 0 <= a < dims@.len() && a != dim ==> #[trigger] u@[a] < dims@[a],
        product(dims@) <= usize::MAX,
    ensures
        r == ravel(dims@, as_index(u@).update(dim as int, k as int)),
        r < product(dims@),
{
    let mut v: Vec<usize> = Vec::new();
    let mut a: usize = 0;
    while a < u.len()
        invariant
            a <= u@.len(),
            u@.len() == dims@.len(),
            dim < dims@.len(),
            v@.len() == a,
            forall|b: int| 0 <= b < a ==> #[trigger] v@[b] == if b == dim {
                k
            } else {
                u@[b]
            },
        decreases u@.len() - a,
    {
        if a == dim {
            v.push(k);
        } else {
            v.push(u[a]);
        }
        a = a + 1;
    }
    proof {
        assert(as_index(v@) =~= as_index(u@).update(dim as int, k as int));
        assert forall|b: int| 0 <= b < dims@.len() implies 0 <= #[trigger] as_index(v@)[b]
            < dims@[b] by {
            if b != dim {
                assert(u@[b] < dims@[b]);
            }
        }
    }
    ravel_index(dims, &v)
}

/// `dims` with axis `dim` set to `size`.
fn dims_with(dims: &Vec<usize>, dim: usize, size: usize) -> (r: Vec<usize>)
    requires
        dim < dims@.len(),
    ensures
        r@ == dims@.update(dim as int, size),
{
    let mut r: Vec<usize> = Vec::new();
    let mut a: usize = 0;
    while a < dims.len()
        invariant
            a <= dims@.len(),
            dim < dims@.len(),
            r@ =~= dims@.update(dim as int, size).subrange(0, a as int),
        decreases dims@.len() - a,
    {
        if a == dim {
            r.push(size);
        } else {
            r.push(dims[a]);
        }
        a = a + 1;
    }
    r
}

/// The multi-index in the reduced shape, read back in the full shape, is in bounds
/// except along `dim`.
proof fn lemma_reduced_index(dims: Seq<usize>, dim: int, u: Seq<usize>)
    requires
        0 <= dim < dims.len(),
        in_bounds(reduced_dims(dims, dim), as_index(u)),
    ensures
        u.len() == dims.len(),
        forall|a: int| 0 <= a < dims.len() && a != dim ==> #[trigger] u[a] < dims[a],
{
    assert forall|a: int| 0 <= a < dims.len() && a != dim implies #[trigger] u[a] < dims[a] by {
        assert(0 <= as_index(u)[a] < reduced_dims(dims, dim)[a]);
    }
}

impl NdArrayMathOps<i64> {
    /// Wrapping sum of every element, as a one-element tensor of rank 1.
    pub fn sum(tensor: NdArrayTensor<i64>) -> (r: NdArrayTensor<i64>)
        requires
            tensor.wf(),
        ensures
            r.wf(),
            r.dims() == seq![1usize],
            r.values() == seq![total(tensor.values(), tensor.values().len() as int)],
    {
        let s = Self::total_exec(&tensor.data);
        let mut dims: Vec<usize> = Vec::new();
        dims.push(1);
        let mut data: Vec<i64> = Vec::new();
        data.push(s);
        proof {
            assert(dims@ =~= seq![1usize]);
            lemma_product_single(1);
            assert(data@ =~= seq![s]);
        }
        NdArrayTensor { shape: Shape { dims }, data }
    }

    fn total_exec(s: &Vec<i64>) -> (r: i64)
        ensures
            r == total(s@, s@.len() as int),
    {
        let mut acc: i64 = 0;
        let mut j: usize = 0;
        while j < s.len()
            invariant
                j <= s@.len(),
                acc == total(s@, j as int),
            decreases s@.len() - j,
        {
            acc = acc.wrapping_add(s[j]);
            j = j + 1;
        }
        acc
    }

    /// Mean of every element (sum divided by count, truncated toward zero), as a
    /// one-element tensor of rank 1.
    pub fn mean(tensor: NdArrayTensor<i64>) -> (r: NdArrayTensor<i64>)
        requires
            tensor.wf(),
            0 < tensor.values().len() <= i64::MAX,
        ensures
            r.wf(),
            r.dims() == seq![1usize],
            r.values() == seq![
                quotient(
                    total(tensor.values(), tensor.values().len() as int),
                    tensor.values().len() as i64,
                ),
            ],
    {
        let n = tensor.data.len();
        let s = Self::total_exec(&tensor.data);
        let m = match s.checked_div(n as i64) {
            Some(q) => q,
            None => i64::MIN,
        };
        let mut dims: Vec<usize> = Vec::new();
        dims.push(1);
        let mut data: Vec<i64> = Vec::new();
        data.push(m);
        proof {
            assert(dims@ =~= seq![1usize]);
            lemma_product_single(1);
            assert(data@ =~= seq![m]);
        }
        NdArrayTensor { shape: Shape { dims }, data }
    }

    /// Wrapping sums along axis `dim`; that axis is kept with size 1.
    pub fn sum_dim(tensor: NdArrayTensor<i64>, dim: usize) -> (r: NdArrayTensor<i64>)
        requires
            tensor.wf(),
            dim < tensor.dims().len(),
            product(reduced_dims(tensor.dims(), dim as int)) <= usize::MAX,
        ensures
            r.wf(),
            r.dims() == reduced_dims(tensor.dims(), dim as int),
            forall|j: int|
                0 <= j < r.values().len() ==> #[trigger] r.values()[j] == axis_sum(
                    tensor,
                    unravel(r.dims(), j),
                    dim as int,
                    tensor.dims()[dim as int] as int,
                ),
    {
        Self::sum_along(&tensor, dim)
    }

    fn sum_along(tensor: &NdArrayTensor<i64>, dim: usize) -> (r: NdArrayTensor<i64>)
        requires
            tensor.wf(),
            dim < tensor.dims().len(),
            product(reduced_dims(tensor.dims(), dim as int)) <= usize::MAX,
        ensures
            r.wf(),
            r.dims() == reduced_dims(tensor.dims(), dim as int),
            forall|j: int|
                0 <= j < r.values().len() ==> #[trigger] r.values()[j] == axis_sum(
                    *tensor,
                    unravel(r.dims(), j),
                    dim as int,
                    tensor.dims()[dim as int] as int,
                ),
    {
        let dims = &tensor.shape.dims;
        let n_axis = dims[dim];
        let out_dims = dims_with(dims, dim, 1);
        let ghost rd = reduced_dims(dims@, dim as int);
        assert(out_dims@ == rd);
        proof {
            if n_axis >= 1 {
                lemma_product_le(out_dims@, dims@);
            }
        }
        let n = num_elements_of(&out_dims);
        let mut out: Vec<i64> = Vec::new();
        let mut j: usize = 0;
        while j < n
            invariant
                j <= n,
                n == product(out_dims@),
                out_dims@ == reduced_dims(dims@, dim as int),
                tensor.wf(),
                *dims == tensor.shape.dims,
                dim < dims@.len(),
                n_axis == dims@[dim as int],
                out@.len() == j,
                forall|q: int|
                    0 <= q < j ==> #[trigger] out@[q] == axis_sum(
                        *tensor,
                        unravel(out_dims@, q),
                        dim as int,
                        n_axis as int,
                    ),
            decreases n - j,
        {
            let u = unravel_index(&out_dims, j);
            proof {
                lemma_reduced_index(dims@, dim as int, u@);
            }
            let mut acc: i64 = 0;
            let mut k: usize = 0;
            while k < n_axis
                invariant
                    k <= n_axis,
                    n_axis == dims@[dim as int],
                    tensor.wf(),
                    *dims == tensor.shape.dims,
                    dim < dims@.len(),
                    u@.len() == dims@.len(),
                    forall|a: int| 0 <= a < dims@.len() && a != dim ==> #[trigger] u@[a] < dims@[a],
                    as_index(u@) == unravel(out_dims@, j as int),
                    acc == axis_sum(*tensor, as_index(u@), dim as int, k as int),
                decreases n_axis - k,
            {
                let p = position_along(&u, dims, dim, k);
                acc = acc.wrapping_add(tensor.data[p]);
                k = k + 1;
            }
            out.push(acc);
            j = j + 1;
        }
        NdArrayTensor { shape: Shape { dims: out_dims }, data: out }
    }

    /// Means along axis `dim` (sums divided by the axis size, truncated toward zero);
    /// that axis is kept with size 1.
    pub fn mean_dim(tensor: NdArrayTensor<i64>, dim: usize) -> (r: NdArrayTensor<i64>)
        requires
            tensor.wf(),
            dim < tensor.dims().len(),
            0 < tensor.dims()[dim as int] <= i64::MAX,
        ensures
            r.wf(),
            r.dims() == reduced_dims(tensor.dims(), dim as int),
            forall|j: int|
                0 <= j < r.values().len() ==> #[trigger] r.values()[j] == quotient(
                    axis_sum(
                        tensor,
                        unravel(r.dims(), j),
                        dim as int,
                        tensor.dims()[dim as int] as int,
                    ),
                    tensor.dims()[dim as int] as i64,
                ),
    {
        proof {
            lemma_product_le(reduced_dims(tensor.dims(), dim as int), tensor.dims());
        }
        let sums = Self::sum_along(&tensor, dim);
        let d = tensor.shape.dims[dim] as i64;
        let n = sums.data.len();
        let mut out: Vec<i64> = Vec::new();
        let mut j: usize = 0;
        while j < n
            invariant
                j <= n,
                n == sums.values().len(),
                d == tensor.dims()[dim as int] as i64,
                d > 0,
                out@.len() == j,
                forall|q: int| 0 <= q < j ==> #[trigger] out@[q] == quotient(sums.values()[q], d),
            decreases n - j,
        {
            let m = match sums.data[j].checked_div(d) {
                Some(q) => q,
                None => i64::MIN,
            };
            out.push(m);
            j = j + 1;
        }
        NdArrayTensor { shape: sums.shape, data: out }
    }

    /// Position of the largest element along axis `dim`, the first one on ties;
    /// that axis is kept with size 1.
    pub fn argmax(tensor: NdArrayTensor<i64>, dim: usize) -> (r: NdArrayTensor<i64>)
        requires
            tensor.wf(),
            dim < tensor.dims().len(),
            0 < tensor.dims()[dim as int] <= i64::MAX,
        ensures
            r.wf(),
            r.dims() == reduced_dims(tensor.dims(), dim as int),
            forall|j: int|
                0 <= j < r.values().len() ==> is_first_max(
                    tensor,
                    unravel(r.dims(), j),
                    dim as int,
                    #[trigger] r.values()[j] as int,
                ),
    {
        Self::arg_along(&tensor, dim, true)
    }

    /// Position of the smallest element along axis `dim`, the first one on ties;
    /// that axis is kept with size 1.
    pub fn argmin(tensor: NdArrayTensor<i64>, dim: usize) -> (r: NdArrayTensor<i64>)
        requires
            tensor.wf(),
            dim < tensor.dims().len(),
            0 < tensor.dims()[dim as int] <= i64::MAX,
        ensures
            r.wf(),
            r.dims() == reduced_dims(tensor.dims(), dim as int),
            forall|j: int|
                0 <= j < r.values().len() ==> is_first_min(
                    tensor,
                    unravel(r.dims(), j),
                    dim as int,
                    #[trigger] r.values()[j] as int,
                ),
    {
        Self::arg_along(&tensor, dim, false)
    }

    fn arg_along(tensor: &NdArrayTensor<i64>, dim: usize, largest: bool) -> (r: NdArrayTensor<
        i64,
    >)
        requires
            tensor.wf(),
            dim < tensor.dims().len(),
            0 < tensor.dims()[dim as int] <= i64::MAX,
        ensures
            r.wf(),
            r.dims() == reduced_dims(tensor.dims(), dim as int),
            forall|j: int|
                0 <= j < r.values().len() ==> if largest {
                    is_first_max(
                        *tensor,
                        unravel(r.dims(), j),
                        dim as int,
                        #[trigger] r.values()[j] as int,
                    )
                } else {
                    is_first_min(*tensor, unravel(r.dims(), j), dim as int, r.values()[j] as int)
                },
    {
        let dims = &tensor.shape.dims;
        let n_axis = dims[dim];
        let out_dims = dims_with(dims, dim, 1);
        proof {
            lemma_product_le(out_dims@, dims@);
        }
        let n = num_elements_of(&out_dims);
        let mut out: Vec<i64> = Vec::new();
        let mut j: usize = 0;
        while j < n
            invariant
                j <= n,
                n == product(out_dims@),
                out_dims@ == reduced_dims(dims@, dim as int),
                tensor.wf(),
                *dims == tensor.shape.dims,
                dim < dims@.len(),
                n_axis == dims@[dim as int],
                0 < n_axis <= i64::MAX,
                out@.len() == j,
                forall|q: int|
                    0 <= q < j ==> if largest {
                        is_first_max(
                            *tensor,
                            unravel(out_dims@, q),
                            dim as int,
                            #[trigger] out@[q] as int,
                        )
                    } else {
                        is_first_min(*tensor, unravel(out_dims@, q), dim as int, out@[q] as int)
                    },
            decreases n - j,
        {
            let u = unravel_index(&out_dims, j);
            let ghost ui = as_index(u@);
            proof {
                lemma_reduced_index(dims@, dim as int, u@);
            }
            let p0 = position_along(&u, dims, dim, 0);
            let mut best: usize = 0;
            let mut best_val: i64 = tensor.data[p0];
            let mut k: usize = 1;
            while k < n_axis
                invariant
                    1 <= k <= n_axis,
                    n_axis == dims@[dim as int],
                    tensor.wf(),
                    *dims == tensor.shape.dims,
                    dim < dims@.len(),
                    u@.len() == dims@.len(),
                    forall|a: int| 0 <= a < dims@.len() && a != dim ==> #[trigger] u@[a] < dims@[a],
                    ui == as_index(u@),
                    best < k,
                    best_val == tensor.at(ui.update(dim as int, best as int)),
                    forall|i: int|
                        0 <= i < k ==> if largest {
                            #[trigger] tensor.at(ui.update(dim as int, i)) <= best_val
                        } else {
                            tensor.at(ui.update(dim as int, i)) >= best_val
                        },
                    forall|i: int|
                        0 <= i < best ==> if largest {
                            #[trigger] tensor.at(ui.update(dim as int, i)) < best_val
                        } else {
                            tensor.at(ui.update(dim as int, i)) > best_val
                        },
                decreases n_axis - k,
            {
                let p = position_along(&u, dims, dim, k);
                let v = tensor.data[p];
                if (largest && v > best_val) || (!largest && v < best_val) {
                    best = k;
                    best_val = v;
                }
                k = k + 1;
            }
            proof {
                assert(ui == unravel(out_dims@, j as int));
            }
            out.push(best as i64);
            j = j + 1;
        }
        NdArrayTensor { shape: Shape { dims: out_dims }, data: out }
    }
}

/// The multi-index of the source element that position `p` of a last-axis gather reads.
pub open spec fn gather_source(index_dims: Seq<usize>, indexes: Seq<i64>, p: int) -> Seq<int> {
    unravel(index_dims, p).update(index_dims.len() - 1, indexes[p] as int)
}

/// A last-axis gather is well posed: equal ranks, equal leading axes, and every
/// index within the source's last axis.
pub open spec fn gather_ok(dims: Seq<usize>, index_dims: Seq<usize>, indexes: Seq<i64>) -> bool {
    &&& dims.len() == index_dims.len()
    &&& dims.len() >= 1
    &&& forall|a: int| 0 <= a < dims.len() - 1 ==> #[trigger] dims[a] == index_dims[a]
    &&& forall|p: int|
        0 <= p < indexes.len() ==> 0 <= #[trigger] indexes[p] < dims[dims.len() - 1]
}

/// Element `q` of `base` plus every `values[p]`, `p < k`, whose gather position is `q`
/// (wrapping).
pub open spec fn scatter_sum(
    base: Seq<i64>,
    dims: Seq<usize>,
    index_dims: Seq<usize>,
    indexes: Seq<i64>,
    values: Seq<i64>,
    q: int,
    k: int,
) -> i64
    decreases k,
{
    if k <= 0 {
        base[q]
    } else {
        let prev = scatter_sum(base, dims, index_dims, indexes, values, q, k - 1);
        if ravel(dims, gather_source(index_dims, indexes, k - 1)) == q {
            prev.wrapping_add(values[k - 1])
        } else {
            prev
        }
    }
}

/// `base` plus every sub-array `i < k` of `value` along `dim` whose listed index is
/// `idx[dim]`, read at multi-index `idx` (wrapping).
pub open spec fn axis_scatter_sum(
    base: i64,
    value: NdArrayTensor<i64>,
    indexes: Seq<i64>,
    idx: Seq<int>,
    dim: int,
    k: int,
) -> i64
    decreases k,
{
    if k <= 0 {
        base
    } else {
        let prev = axis_scatter_sum(base, value, indexes, idx, dim, k - 1);
        if indexes[k - 1] == idx[dim] {
            prev.wrapping_add(value.at(idx.update(dim, k - 1)))
        } else {
            prev
        }
    }
}

/// Every listed index lies within an axis of size `n`.
pub open spec fn indexes_below(indexes: Seq<i64>, n: int) -> bool {
    forall|i: int| 0 <= i < indexes.len() ==> 0 <= #[trigger] indexes[i] < n
}

fn copy_values<T: Copy>(v: &Vec<T>) -> (r: Vec<T>)
    ensures
        r@ == v@,
{
    let mut r: Vec<T> = Vec::new();
    let mut j: usize = 0;
    while j < v.len()
        invariant
            j <= v@.len(),
            r@ =~= v@.subrange(0, j as int),
        decreases v@.len() - j,
    {
        r.push(v[j]);
        j = j + 1;
    }
    r
}

/// The flat position in the source that position `p` of a last-axis gather reads.
fn gather_position(
    dims: &Vec<usize>,
    index_dims: &Vec<usize>,
    indexes: &Vec<i64>,
    p: usize,
) -> (r: usize)
    requires
        gather_ok(dims@, index_dims@, indexes@),
        p < product(index_dims@),
        indexes@.len() == product(index_dims@),
        product(dims@) <= usize::MAX,
    ensures
        r == ravel(dims@, gather_source(index_dims@, indexes@, p as int)),
        r < product(dims@),
{
    let last = dims.len() - 1;
    let u = unravel_index(index_dims, p);
    proof {
        assert forall|a: int| 0 <= a < dims@.len() && a != last implies #[trigger] u@[a]
            < dims@[a] by {
            assert(0 <= as_index(u@)[a] < index_dims@[a]);
        }
        assert(0 <= indexes@[p as int] < dims@[last as int]);
    }
    position_along(&u, dims, last, indexes[p] as usize)
}

/// The multi-index of the source element that position `p` of a gather along `dim` reads.
pub open spec fn gather_source_along(
    index_dims: Seq<usize>,
    indexes: Seq<i64>,
    dim: int,
    p: int,
) -> Seq<int> {
    unravel(index_dims, p).update(dim, indexes[p] as int)
}

/// A gather along `dim` is well posed: equal ranks, equal sizes on every other axis,
/// and every index within axis `dim` of the source.
pub open spec fn gather_along_ok(
    dims: Seq<usize>,
    index_dims: Seq<usize>,
    indexes: Seq<i64>,
    dim: int,
) -> bool {
    &&& dims.len() == index_dims.len()
    &&& 0 <= dim < dims.len()
    &&& forall|a: int| 0 <= a < dims.len() && a != dim ==> #[trigger] dims[a] == index_dims[a]
    &&& forall|p: int| 0 <= p < indexes.len() ==> 0 <= #[trigger] indexes[p] < dims[dim]
}

impl<E: Copy> NdArrayMathOps<E> {
    /// Gathers along the last axis: position `p` of the result takes the source element
    /// at the index tensor's multi-index for `p`, with its last axis replaced by the
    /// index found there.
    pub fn index_select(tensor: NdArrayTensor<E>, indexes: NdArrayTensor<i64>) -> (r:
        NdArrayTensor<E>)
        requires
            tensor.wf(),
            indexes.wf(),
            gather_ok(tensor.dims(), indexes.dims(), indexes.values()),
        ensures
            r.wf(),
            r.dims() == indexes.dims(),
            forall|p: int|
                0 <= p < r.values().len() ==> #[trigger] r.values()[p] == tensor.at(
                    gather_source(indexes.dims(), indexes.values(), p),
                ),
    {
        let n = indexes.data.len();
        let mut out: Vec<E> = Vec::new();
        let mut p: usize = 0;
        while p < n
            invariant
                p <= n,
                n == indexes.values().len(),
                tensor.wf(),
                indexes.wf(),
                gather_ok(tensor.dims(), indexes.dims(), indexes.values()),
                out@.len() == p,
                forall|k: int|
                    0 <= k < p ==> #[trigger] out@[k] == tensor.at(
                        gather_source(indexes.dims(), indexes.values(), k),
                    ),
            decreases n - p,
        {
            let q = gather_position(&tensor.shape.dims, &indexes.shape.dims, &indexes.data, p);
            out.push(tensor.data[q]);
            p = p + 1;
        }
        NdArrayTensor { shape: indexes.shape, data: out }
    }

    /// Gathers along axis `dim`: position `p` of the result takes the source element at
    /// the index tensor's multi-index for `p`, with axis `dim` replaced by the index found there.
    pub fn gather(tensor: NdArrayTensor<E>, dim: usize, indexes: NdArrayTensor<i64>) -> (r:
        NdArrayTensor<E>)
        requires
            tensor.wf(),
            indexes.wf(),
            gather_along_ok(tensor.dims(), indexes.dims(), indexes.values(), dim as int),
        ensures
            r.wf(),
            r.dims() == indexes.dims(),
            forall|p: int|
                0 <= p < r.values().len() ==> #[trigger] r.values()[p] == tensor.at(
                    gather_source_along(indexes.dims(), indexes.values(), dim as int, p),
                ),
    {
        let n = indexes.data.len();
        let mut out: Vec<E> = Vec::new();
        let mut p: usize = 0;
        while p < n
            invariant
                p <= n,
                n == indexes.values().len(),
                tensor.wf(),
                indexes.wf(),
                gather_along_ok(tensor.dims(), indexes.dims(), indexes.values(), dim as int),
                out@.len() == p,
                forall|k: int|
                    0 <= k < p ==> #[trigger] out@[k] == tensor.at(
                        gather_source_along(indexes.dims(), indexes.values(), dim as int, k),
                    ),
            decreases n - p,
        {
            let u = unravel_index(&indexes.shape.dims, p);
            proof {
                assert forall|a: int|
                    0 <= a < tensor.dims().len() && a != dim implies #[trigger] u@[a]
                    < tensor.dims()[a] by {
                    assert(0 <= as_index(u@)[a] < indexes.dims()[a]);
                }
                assert(0 <= indexes.values()[p as int] < tensor.dims()[dim as int]);
            }
            let q = position_along(&u, &tensor.shape.dims, dim, indexes.data[p] as usize);
            out.push(tensor.data[q]);
            p = p + 1;
        }
        NdArrayTensor { shape: indexes.shape, data: out }
    }

    /// Selects whole sub-arrays along axis `dim`, one for each listed index, in list order.
    pub fn index_select_dim(tensor: NdArrayTensor<E>, dim: usize, indexes: NdArrayTensor<i64>) -> (r:
        NdArrayTensor<E>)
        requires
            tensor.wf(),
            indexes.wf(),
            dim < tensor.dims().len(),
            indexes.dims().len() == 1,
            indexes_below(indexes.values(), tensor.dims()[dim as int] as int),
            product(tensor.dims().update(dim as int, indexes.values().len() as usize))
                <= usize::MAX,
        ensures
            r.wf(),
            r.dims() == tensor.dims().update(dim as int, indexes.values().len() as usize),
            forall|j: int|
                0 <= j < r.values().len() ==> #[trigger] r.values()[j] == tensor.at(
                    unravel(r.dims(), j).update(
                        dim as int,
                        indexes.values()[unravel(r.dims(), j)[dim as int]] as int,
                    ),
                ),
    {
        let dims = &tensor.shape.dims;
        let m = indexes.data.len();
        let out_dims = dims_with(dims, dim, m);
        let n = num_elements_of(&out_dims);
        let mut out: Vec<E> = Vec::new();
        let mut j: usize = 0;
        while j < n
            invariant
                j <= n,
                n == product(out_dims@),
                m == indexes.values().len(),
                out_dims@ == dims@.update(dim as int, m),
                tensor.wf(),
                *dims == tensor.shape.dims,
                dim < dims@.len(),
                indexes_below(indexes.values(), dims@[dim as int] as int),
                out@.len() == j,
                forall|q: int|
                    0 <= q < j ==> #[trigger] out@[q] == tensor.at(
                        unravel(out_dims@, q).update(
                            dim as int,
                            indexes.values()[unravel(out_dims@, q)[dim as int]] as int,
                        ),
                    ),
            decreases n - j,
        {
            let u = unravel_index(&out_dims, j);
            proof {
                assert forall|a: int| 0 <= a < dims@.len() && a != dim implies #[trigger] u@[a]
                    < dims@[a] by {
                    assert(0 <= as_index(u@)[a] < out_dims@[a]);
                }
                assert(0 <= as_index(u@)[dim as int] < out_dims@[dim as int]);
            }
            let i = indexes.data[u[dim]];
            let p = position_along(&u, dims, dim, i as usize);
            out.push(tensor.data[p]);
            j = j + 1;
        }
        NdArrayTensor { shape: Shape { dims: out_dims }, data: out }
    }
}

impl NdArrayMathOps<i64> {
    /// Scatter-add along the last axis: each element of `value` is added (wrapping) to
    /// the source element that `index_select` would read at the same position.
    pub fn index_select_assign(
        tensor: NdArrayTensor<i64>,
        indexes: NdArrayTensor<i64>,
        value: NdArrayTensor<i64>,
    ) -> (r: NdArrayTensor<i64>)
        requires
            tensor.wf(),
            indexes.wf(),
            value.wf(),
            gather_ok(tensor.dims(), indexes.dims(), indexes.values()),
            value.dims() == indexes.dims(),
        ensures
            r.wf(),
            r.dims() == tensor.dims(),
            forall|q: int|
                0 <= q < r.values().len() ==> #[trigger] r.values()[q] == scatter_sum(
                    tensor.values(),
                    tensor.dims(),
                    indexes.dims(),
                    indexes.values(),
                    value.values(),
                    q,
                    indexes.values().len() as int,
                ),
    {
        let mut out = copy_values(&tensor.data);
        let n = indexes.data.len();
        let mut p: usize = 0;
        while p < n
            invariant
                p <= n,
                n == indexes.values().len(),
                tensor.wf(),
                indexes.wf(),
                value.wf(),
                value.dims() == indexes.dims(),
                gather_ok(tensor.dims(), indexes.dims(), indexes.values()),
                out@.len() == tensor.values().len(),
                forall|q: int|
                    0 <= q < out@.len() ==> #[trigger] out@[q] == scatter_sum(
                        tensor.values(),
                        tensor.dims(),
                        indexes.dims(),
                        indexes.values(),
                        value.values(),
                        q,
                        p as int,
                    ),
            decreases n - p,
        {
            let q = gather_position(&tensor.shape.dims, &indexes.shape.dims, &indexes.data, p);
            let v = out[q].wrapping_add(value.data[p]);
            out.set(q, v);
            p = p + 1;
        }
        NdArrayTensor { shape: tensor.shape, data: out }
    }

    /// Adds (wrapping) sub-array `i` of `value` along axis `dim` into the sub-array of
    /// `tensor` at the `i`-th listed index.
    pub fn index_select_dim_assign(
        tensor: NdArrayTensor<i64>,
        dim: usize,
        indexes: NdArrayTensor<i64>,
        value: NdArrayTensor<i64>,
    ) -> (r: NdArrayTensor<i64>)
        requires
            tensor.wf(),
            indexes.wf(),
            value.wf(),
            dim < tensor.dims().len(),
            indexes.dims().len() == 1,
            indexes_below(indexes.values(), tensor.dims()[dim as int] as int),
            value.dims() == tensor.dims().update(dim as int, indexes.values().len() as usize),
        ensures
            r.wf(),
            r.dims() == tensor.dims(),
            forall|q: int|
                0 <= q < r.values().len() ==> #[trigger] r.values()[q] == axis_scatter_sum(
                    tensor.values()[q],
                    value,
                    indexes.values(),
                    unravel(tensor.dims(), q),
                    dim as int,
                    indexes.values().len() as int,
                ),
    {
        let dims = &tensor.shape.dims;
        let n = tensor.data.len();
        let m = indexes.data.len();
        let mut out: Vec<i64> = Vec::new();
        let mut q: usize = 0;
        while q < n
            invariant
                q <= n,
                n == product(dims@),
                m == indexes.values().len(),
                tensor.wf(),
                value.wf(),
                *dims == tensor.shape.dims,
                dim < dims@.len(),
                indexes_below(indexes.values(), dims@[dim as int] as int),
                value.dims() == dims@.update(dim as int, m),
                out@.len() == q,
                forall|k: int|
                    0 <= k < q ==> #[trigger] out@[k] == axis_scatter_sum(
                        tensor.values()[k],
                        value,
                        indexes.values(),
                        unravel(dims@, k),
                        dim as int,
                        m as int,
                    ),
            decreases n - q,
        {
            let u = unravel_index(dims, q);
            let ghost ui = as_index(u@);
            proof {
                assert forall|a: int| 0 <= a < dims@.len() && a != dim implies #[trigger] u@[a]
                    < value.dims()[a] by {
                    assert(0 <= ui[a] < dims@[a]);
                }
                assert(0 <= ui[dim as int] < dims@[dim as int]);
            }
            let mut acc: i64 = tensor.data[q];
            let mut i: usize = 0;
            while i < m
                invariant
                    i <= m,
                    m == indexes.values().len(),
                    value.wf(),
                    dim < dims@.len(),
                    value.dims() == dims@.update(dim as int, m),
                    u@.len() == dims@.len(),
                    ui == as_index(u@),
                    forall|a: int|
                        0 <= a < dims@.len() && a != dim ==> #[trigger] u@[a] < value.dims()[a],
                    indexes_below(indexes.values(), dims@[dim as int] as int),
                    acc == axis_scatter_sum(
                        tensor.values()[q as int],
                        value,
                        indexes.values(),
                        ui,
                        dim as int,
                        i as int,
                    ),
                decreases m - i,
            {
                let target = indexes.data[i];
                if target as usize == u[dim] {
                    let p = position_along(&u, &value.shape.dims, dim, i);
                    acc = acc.wrapping_add(value.data[p]);
                }
                i = i + 1;
            }
            out.push(acc);
            q = q + 1;
        }
        NdArrayTensor { shape: tensor.shape, data: out }
    }
}

} // verus!
