//! Laws that relate several operations, stated over the contracts and proved.

use core::ops::Range;
use vstd::prelude::*;

use crate::compare::{compared, compared_scalar, CmpOp};
use crate::contract::{
    added_along, arg_maxed, arg_mined, assigned, averaged, averaged_along, concatenated,
    filled_with, gathered, gathered_along, holds_view, mask_filled, mask_scattered, scatter_added, selected_along,
    sliced, summed, summed_along,
};
use crate::math::{broadcast_result, scalar_result, BinaryOp};
use crate::reduce::{is_first_max, is_first_min};
use crate::shape::{lemma_unravel_in_bounds, unravel};
use crate::tensor::{cat_offset, cat_ok, lemma_cat_offset_mono, Data, NdArrayTensor};

verus! {

/// Reading a tensor back to host data and building a tensor from that data
/// reproduces the sizes and the elements: `from_data(into_data(t))` is `t`.
pub proof fn lemma_round_trip<E>(t: NdArrayTensor<E>, d: Data<E>, r: NdArrayTensor<E>)
    requires
        t.wf(),
        d.wf() && d.shape.dims@ == t.dims() && d.value@ == t.values(),
        r.wf() && r.dims() == d.shape.dims@ && r.values() == d.value@,
    ensures
        r.dims() == t.dims(),
        r.values() == t.values(),
{
}

/// Two tensors with the same sizes that agree element by element are the same tensor.
proof fn lemma_same_elements<E>(x: NdArrayTensor<E>, y: NdArrayTensor<E>)
    requires
        x.wf(),
        y.wf(),
        x.dims() == y.dims(),
        forall|j: int| 0 <= j < x.values().len() ==> #[trigger] x.values()[j] == y.values()[j],
    ensures
        x.values() == y.values(),
{
    assert(x.values() =~= y.values());
}

/// One position along an axis is the first largest element at most once.
proof fn lemma_first_max_unique(t: NdArrayTensor<i64>, idx: Seq<int>, dim: int, m1: int, m2: int)
    requires
        is_first_max(t, idx, dim, m1),
        is_first_max(t, idx, dim, m2),
    ensures
        m1 == m2,
{
    if m1 < m2 {
        assert(t.at(idx.update(dim, m1)) < t.at(idx.update(dim, m2)));
        assert(t.at(idx.update(dim, m2)) <= t.at(idx.update(dim, m1)));
    } else if m2 < m1 {
        assert(t.at(idx.update(dim, m2)) < t.at(idx.update(dim, m1)));
        assert(t.at(idx.update(dim, m1)) <= t.at(idx.update(dim, m2)));
    }
}

/// One position along an axis is the first smallest element at most once.
proof fn lemma_first_min_unique(t: NdArrayTensor<i64>, idx: Seq<int>, dim: int, m1: int, m2: int)
    requires
        is_first_min(t, idx, dim, m1),
        is_first_min(t, idx, dim, m2),
    ensures
        m1 == m2,
{
    if m1 < m2 {
        assert(t.at(idx.update(dim, m1)) > t.at(idx.update(dim, m2)));
        assert(t.at(idx.update(dim, m2)) >= t.at(idx.update(dim, m1)));
    } else if m2 < m1 {
        assert(t.at(idx.update(dim, m2)) > t.at(idx.update(dim, m1)));
        assert(t.at(idx.update(dim, m1)) >= t.at(idx.update(dim, m2)));
    }
}

/// Forwarding is transparent for creation from host data, reshaping and moving between devices.
/// The contract admits one result only, so the decorator's result and the
/// wrapped backend's result for the same arguments are identical.
pub proof fn lemma_forwarding_view<E>(
    dims: Seq<usize>,
    values: Seq<E>,
    x: NdArrayTensor<E>,
    y: NdArrayTensor<E>,
)
    requires
        holds_view(x, dims, values),
        holds_view(y, dims, values),
    ensures
        x.dims() == y.dims(),
        x.values() == y.values(),
{
    lemma_same_elements(x, y);
}

/// Forwarding is transparent for creation of a tensor with one value everywhere.
/// The contract admits one result only, so the decorator's result and the
/// wrapped backend's result for the same arguments are identical.
pub proof fn lemma_forwarding_fill<E>(
    dims: Seq<usize>,
    v: E,
    x: NdArrayTensor<E>,
    y: NdArrayTensor<E>,
)
    requires
        filled_with(x, dims, v),
        filled_with(y, dims, v),
    ensures
        x.dims() == y.dims(),
        x.values() == y.values(),
{
    lemma_same_elements(x, y);
}

/// Forwarding is transparent for ranged reading.
/// The contract admits one result only, so the decorator's result and the
/// wrapped backend's result for the same arguments are identical.
pub proof fn lemma_forwarding_index<E>(
    t: NdArrayTensor<E>,
    ranges: Seq<Range<usize>>,
    x: NdArrayTensor<E>,
    y: NdArrayTensor<E>,
)
    requires
        sliced(t, ranges, x),
        sliced(t, ranges, y),
    ensures
        x.dims() == y.dims(),
        x.values() == y.values(),
{
    lemma_same_elements(x, y);
}

/// Forwarding is transparent for ranged writing.
/// The contract admits one result only, so the decorator's result and the
/// wrapped backend's result for the same arguments are identical.
pub proof fn lemma_forwarding_index_assign<E>(
    t: NdArrayTensor<E>,
    ranges: Seq<Range<usize>>,
    v: NdArrayTensor<E>,
    x: NdArrayTensor<E>,
    y: NdArrayTensor<E>,
)
    requires
        assigned(t, ranges, v, x),
        assigned(t, ranges, v, y),
    ensures
        x.dims() == y.dims(),
        x.values() == y.values(),
{
    lemma_same_elements(x, y);
}

/// Forwarding is transparent for concatenation.
/// The contract admits one result only, so the decorator's result and the
/// wrapped backend's result for the same arguments are identical.
pub proof fn lemma_forwarding_cat<E>(
    ts: Seq<NdArrayTensor<E>>,
    dim: int,
    x: NdArrayTensor<E>,
    y: NdArrayTensor<E>,
)
    requires
        cat_ok(ts, dim),
        cat_offset(ts, dim, ts.len() as int) <= usize::MAX,
        concatenated(ts, dim, x),
        concatenated(ts, dim, y),
    ensures
        x.dims() == y.dims(),
        x.values() == y.values(),
{
    assert forall|j: int| 0 <= j < x.values().len() implies #[trigger] x.values()[j] == y.values()[j] by {
        let pos = unravel(x.dims(), j)[dim];
        lemma_unravel_in_bounds(x.dims(), j);
        lemma_cat_offset_mono(ts, dim, 0, ts.len() as int);
        assert(0 <= pos < x.dims()[dim]);
        let i = cat_index(ts, dim, pos, 0);
        assert(x.values()[j] == ts[i].at(unravel(x.dims(), j).update(dim, pos - cat_offset(ts, dim, i))));
    }
    lemma_same_elements(x, y);
}

/// Forwarding is transparent for masked fill.
/// The contract admits one result only, so the decorator's result and the
/// wrapped backend's result for the same arguments are identical.
pub proof fn lemma_forwarding_mask_fill<E>(
    t: NdArrayTensor<E>,
    mask: NdArrayTensor<bool>,
    v: E,
    x: NdArrayTensor<E>,
    y: NdArrayTensor<E>,
)
    requires
        mask_filled(t, mask, v, x),
        mask_filled(t, mask, v, y),
    ensures
        x.dims() == y.dims(),
        x.values() == y.values(),
{
    lemma_same_elements(x, y);
}

/// Forwarding is transparent for masked scatter.
/// The contract admits one result only, so the decorator's result and the
/// wrapped backend's result for the same arguments are identical.
pub proof fn lemma_forwarding_mask_scatter<E>(
    t: NdArrayTensor<E>,
    mask: NdArrayTensor<bool>,
    source: NdArrayTensor<E>,
    x: NdArrayTensor<E>,
    y: NdArrayTensor<E>,
)
    requires
        mask_scattered(t, mask, source, x),
        mask_scattered(t, mask, source, y),
    ensures
        x.dims() == y.dims(),
        x.values() == y.values(),
{
    lemma_same_elements(x, y);
}

/// Forwarding is transparent for the last-axis gather.
/// The contract admits one result only, so the decorator's result and the
/// wrapped backend's result for the same arguments are identical.
pub proof fn lemma_forwarding_index_select<E>(
    t: NdArrayTensor<E>,
    indexes: NdArrayTensor<i64>,
    x: NdArrayTensor<E>,
    y: NdArrayTensor<E>,
)
    requires
        gathered(t, indexes, x),
        gathered(t, indexes, y),
    ensures
        x.dims() == y.dims(),
        x.values() == y.values(),
{
    lemma_same_elements(x, y);
}

/// Forwarding is transparent for the gather along an axis.
/// The contract admits one result only, so the decorator's result and the
/// wrapped backend's result for the same arguments are identical.
pub proof fn lemma_forwarding_gather<E>(
    t: NdArrayTensor<E>,
    dim: int,
    indexes: NdArrayTensor<i64>,
    x: NdArrayTensor<E>,
    y: NdArrayTensor<E>,
)
    requires
        gathered_along(t, dim, indexes, x),
        gathered_along(t, dim, indexes, y),
    ensures
        x.dims() == y.dims(),
        x.values() == y.values(),
{
    lemma_same_elements(x, y);
}

/// Forwarding is transparent for the last-axis scatter-add.
/// The contract admits one result only, so the decorator's result and the
/// wrapped backend's result for the same arguments are identical.
pub proof fn lemma_forwarding_index_select_assign(
    t: NdArrayTensor<i64>,
    indexes: NdArrayTensor<i64>,
    value: NdArrayTensor<i64>,
    x: NdArrayTensor<i64>,
    y: NdArrayTensor<i64>,
)
    requires
        scatter_added(t, indexes, value, x),
        scatter_added(t, indexes, value, y),
    ensures
        x.dims() == y.dims(),
        x.values() == y.values(),
{
    lemma_same_elements(x, y);
}

/// Forwarding is transparent for selection of sub-arrays along an axis.
/// The contract admits one result only, so the decorator's result and the
/// wrapped backend's result for the same arguments are identical.
pub proof fn lemma_forwarding_index_select_dim<E>(
    t: NdArrayTensor<E>,
    dim: int,
    indexes: NdArrayTensor<i64>,
    x: NdArrayTensor<E>,
    y: NdArrayTensor<E>,
)
    requires
        selected_along(t, dim, indexes, x),
        selected_along(t, dim, indexes, y),
    ensures
        x.dims() == y.dims(),
        x.values() == y.values(),
{
    lemma_same_elements(x, y);
}

/// Forwarding is transparent for accumulation of sub-arrays along an axis.
/// The contract admits one result only, so the decorator's result and the
/// wrapped backend's result for the same arguments are identical.
pub proof fn lemma_forwarding_index_select_dim_assign(
    t: NdArrayTensor<i64>,
    dim: int,
    indexes: NdArrayTensor<i64>,
    value: NdArrayTensor<i64>,
    x: NdArrayTensor<i64>,
    y: NdArrayTensor<i64>,
)
    requires
        added_along(t, dim, indexes, value, x),
        added_along(t, dim, indexes, value, y),
    ensures
        x.dims() == y.dims(),
        x.values() == y.values(),
{
    lemma_same_elements(x, y);
}

/// Forwarding is transparent for the whole-tensor sum.
/// The contract admits one result only, so the decorator's result and the
/// wrapped backend's result for the same arguments are identical.
pub proof fn lemma_forwarding_sum(
    t: NdArrayTensor<i64>,
    x: NdArrayTensor<i64>,
    y: NdArrayTensor<i64>,
)
    requires
        summed(t, x),
        summed(t, y),
    ensures
        x.dims() == y.dims(),
        x.values() == y.values(),
{
    lemma_same_elements(x, y);
}

/// Forwarding is transparent for the whole-tensor mean.
/// The contract admits one result only, so the decorator's result and the
/// wrapped backend's result for the same arguments are identical.
pub proof fn lemma_forwarding_mean(
    t: NdArrayTensor<i64>,
    x: NdArrayTensor<i64>,
    y: NdArrayTensor<i64>,
)
    requires
        averaged(t, x),
        averaged(t, y),
    ensures
        x.dims() == y.dims(),
        x.values() == y.values(),
{
    lemma_same_elements(x, y);
}

/// Forwarding is transparent for sums along an axis.
/// The contract admits one result only, so the decorator's result and the
/// wrapped backend's result for the same arguments are identical.
pub proof fn lemma_forwarding_sum_dim(
    t: NdArrayTensor<i64>,
    dim: int,
    x: NdArrayTensor<i64>,
    y: NdArrayTensor<i64>,
)
    requires
        summed_along(t, dim, x),
        summed_along(t, dim, y),
    ensures
        x.dims() == y.dims(),
        x.values() == y.values(),
{
    lemma_same_elements(x, y);
}

/// Forwarding is transparent for means along an axis.
/// The contract admits one result only, so the decorator's result and the
/// wrapped backend's result for the same arguments are identical.
pub proof fn lemma_forwarding_mean_dim(
    t: NdArrayTensor<i64>,
    dim: int,
    x: NdArrayTensor<i64>,
    y: NdArrayTensor<i64>,
)
    requires
        averaged_along(t, dim, x),
        averaged_along(t, dim, y),
    ensures
        x.dims() == y.dims(),
        x.values() == y.values(),
{
    lemma_same_elements(x, y);
}

/// Forwarding is transparent for positions of the largest elements.
/// The contract admits one result only, so the decorator's result and the
/// wrapped backend's result for the same arguments are identical.
pub proof fn lemma_forwarding_argmax(
    t: NdArrayTensor<i64>,
    dim: int,
    x: NdArrayTensor<i64>,
    y: NdArrayTensor<i64>,
)
    requires
        arg_maxed(t, dim, x),
        arg_maxed(t, dim, y),
    ensures
        x.dims() == y.dims(),
        x.values() == y.values(),
{
    assert forall|j: int| 0 <= j < x.values().len() implies #[trigger] x.values()[j] == y.values()[j] by {
        lemma_first_max_unique(t, unravel(x.dims(), j), dim, x.values()[j] as int, y.values()[j] as int);
        assert(x.values()[j] as int == y.values()[j] as int);
    }
    lemma_same_elements(x, y);
}

/// Forwarding is transparent for positions of the smallest elements.
/// The contract admits one result only, so the decorator's result and the
/// wrapped backend's result for the same arguments are identical.
pub proof fn lemma_forwarding_argmin(
    t: NdArrayTensor<i64>,
    dim: int,
    x: NdArrayTensor<i64>,
    y: NdArrayTensor<i64>,
)
    requires
        arg_mined(t, dim, x),
        arg_mined(t, dim, y),
    ensures
        x.dims() == y.dims(),
        x.values() == y.values(),
{
    assert forall|j: int| 0 <= j < x.values().len() implies #[trigger] x.values()[j] == y.values()[j] by {
        lemma_first_min_unique(t, unravel(x.dims(), j), dim, x.values()[j] as int, y.values()[j] as int);
        assert(x.values()[j] as int == y.values()[j] as int);
    }
    lemma_same_elements(x, y);
}

/// Forwarding is transparent for element-wise arithmetic between two tensors.
/// The contract admits one result only, so the decorator's result and the
/// wrapped backend's result for the same arguments are identical.
pub proof fn lemma_forwarding_binary(
    op: BinaryOp,
    lhs: NdArrayTensor<i64>,
    rhs: NdArrayTensor<i64>,
    x: NdArrayTensor<i64>,
    y: NdArrayTensor<i64>,
)
    requires
        broadcast_result(op, lhs, rhs, x),
        broadcast_result(op, lhs, rhs, y),
    ensures
        x.dims() == y.dims(),
        x.values() == y.values(),
{
    lemma_same_elements(x, y);
}

/// Forwarding is transparent for element-wise arithmetic with a scalar, and negation.
/// The contract admits one result only, so the decorator's result and the
/// wrapped backend's result for the same arguments are identical.
pub proof fn lemma_forwarding_scalar(
    op: BinaryOp,
    lhs: NdArrayTensor<i64>,
    s: i64,
    x: NdArrayTensor<i64>,
    y: NdArrayTensor<i64>,
)
    requires
        scalar_result(op, lhs, s, x),
        scalar_result(op, lhs, s, y),
    ensures
        x.dims() == y.dims(),
        x.values() == y.values(),
{
    lemma_same_elements(x, y);
}

/// Forwarding is transparent for comparison of two tensors.
/// The contract admits one result only, so the decorator's result and the
/// wrapped backend's result for the same arguments are identical.
pub proof fn lemma_forwarding_compare(
    op: CmpOp,
    lhs: NdArrayTensor<i64>,
    rhs: NdArrayTensor<i64>,
    x: NdArrayTensor<bool>,
    y: NdArrayTensor<bool>,
)
    requires
        compared(op, lhs, rhs, x),
        compared(op, lhs, rhs, y),
    ensures
        x.dims() == y.dims(),
        x.values() == y.values(),
{
    lemma_same_elements(x, y);
}

/// Forwarding is transparent for comparison with a scalar.
/// The contract admits one result only, so the decorator's result and the
/// wrapped backend's result for the same arguments are identical.
pub proof fn lemma_forwarding_compare_elem(
    op: CmpOp,
    lhs: NdArrayTensor<i64>,
    s: i64,
    x: NdArrayTensor<bool>,
    y: NdArrayTensor<bool>,
)
    requires
        compared_scalar(op, lhs, s, x),
        compared_scalar(op, lhs, s, y),
    ensures
        x.dims() == y.dims(),
        x.values() == y.values(),
{
    lemma_same_elements(x, y);
}

/// The tensor of the concatenation that holds position `pos` along the axis,
/// searched from tensor `i` on.
proof fn cat_index<E>(ts: Seq<NdArrayTensor<E>>, dim: int, pos: int, i: int) -> (k: int)
    requires
        0 <= i < ts.len(),
        cat_offset(ts, dim, i) <= pos < cat_offset(ts, dim, ts.len() as int),
        forall|a: int| 0 <= a < ts.len() ==> #[trigger] ts[a].dims()[dim] >= 0,
    ensures
        i <= k < ts.len(),
        cat_offset(ts, dim, k) <= pos < cat_offset(ts, dim, k + 1),
    decreases ts.len() - i,
{
    if pos < cat_offset(ts, dim, i + 1) {
        i
    } else {
        if i + 1 == ts.len() {
            assert(false);
        }
        cat_index(ts, dim, pos, i + 1)
    }
}

} // verus!
