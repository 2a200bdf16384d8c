//! What each operation of the backend contract returns, stated once so that
//! every backend is held to the same statement.

use core::ops::Range;
use vstd::prelude::*;

use crate::reduce::{
    axis_scatter_sum, axis_sum, gather_source, gather_source_along, is_first_max, is_first_min,
    reduced_dims, scatter_sum, total,
};
use crate::math::quotient;
use crate::shape::unravel;
use crate::tensor::{
    cat_dims, cat_offset, in_box, shifted, sliced_dims, unshifted, NdArrayTensor,
};

verus! {

/// `r` is a well-formed tensor with exactly these sizes and elements.
pub open spec fn holds_view<E>(r: NdArrayTensor<E>, dims: Seq<usize>, values: Seq<E>) -> bool {
    r.wf() && r.dims() == dims && r.values() == values
}

/// Every element of `r`, of sizes `dims`, is `v`.
pub open spec fn filled_with<E>(r: NdArrayTensor<E>, dims: Seq<usize>, v: E) -> bool {
    &&& r.wf()
    &&& r.dims() == dims
    &&& forall|j: int| 0 <= j < r.values().len() ==> #[trigger] r.values()[j] == v
}

/// `r` is the region of `t` that `ranges` selects.
pub open spec fn sliced<E>(t: NdArrayTensor<E>, ranges: Seq<Range<usize>>, r: NdArrayTensor<E>) -> bool {
    &&& r.wf()
    &&& r.dims() == sliced_dims(t.dims(), ranges)
    &&& forall|j: int|
        0 <= j < r.values().len() ==> #[trigger] r.values()[j] == t.at(
            shifted(unravel(r.dims(), j), ranges),
        )
}

/// `r` is `t` with `v` written into the region that `ranges` selects.
pub open spec fn assigned<E>(
    t: NdArrayTensor<E>,
    ranges: Seq<Range<usize>>,
    v: NdArrayTensor<E>,
    r: NdArrayTensor<E>,
) -> bool {
    &&& r.wf()
    &&& r.dims() == t.dims()
    &&& forall|j: int|
        0 <= j < r.values().len() ==> #[trigger] r.values()[j] == if in_box(
            unravel(t.dims(), j),
            ranges,
        ) {
            v.at(unshifted(unravel(t.dims(), j), ranges))
        } else {
            t.values()[j]
        }
}

/// `r` is the concatenation of `ts` along axis `dim`.
pub open spec fn concatenated<E>(ts: Seq<NdArrayTensor<E>>, dim: int, r: NdArrayTensor<E>) -> bool {
    &&& r.wf()
    &&& r.dims() == cat_dims(ts, dim)
    &&& forall|j: int, i: int|
        0 <= j < r.values().len() && 0 <= i < ts.len() && cat_offset(ts, dim, i) <= unravel(
            r.dims(),
            j,
        )[dim] < cat_offset(ts, dim, i + 1) ==> #[trigger] r.values()[j] == (#[trigger] ts[i]).at(
            unravel(r.dims(), j).update(dim, unravel(r.dims(), j)[dim] - cat_offset(ts, dim, i)),
        )
}

/// `r` is `t` with the elements where `mask` holds replaced by `v`.
pub open spec fn mask_filled<E>(
    t: NdArrayTensor<E>,
    mask: NdArrayTensor<bool>,
    v: E,
    r: NdArrayTensor<E>,
) -> bool {
    &&& r.wf()
    &&& r.dims() == t.dims()
    &&& forall|j: int|
        0 <= j < r.values().len() ==> #[trigger] r.values()[j] == if mask.values()[j] {
            v
        } else {
            t.values()[j]
        }
}

/// `r` is `t` with the elements where `mask` holds taken from `source`.
pub open spec fn mask_scattered<E>(
    t: NdArrayTensor<E>,
    mask: NdArrayTensor<bool>,
    source: NdArrayTensor<E>,
    r: NdArrayTensor<E>,
) -> bool {
    &&& r.wf()
    &&& r.dims() == t.dims()
    &&& forall|j: int|
        0 <= j < r.values().len() ==> #[trigger] r.values()[j] == if mask.values()[j] {
            source.values()[j]
        } else {
            t.values()[j]
        }
}

/// `r` gathers `t` along its last axis at `indexes`.
pub open spec fn gathered<E>(t: NdArrayTensor<E>, indexes: NdArrayTensor<i64>, r: NdArrayTensor<E>) -> bool {
    &&& r.wf()
    &&& r.dims() == indexes.dims()
    &&& forall|p: int|
        0 <= p < r.values().len() ==> #[trigger] r.values()[p] == t.at(
            gather_source(indexes.dims(), indexes.values(), p),
        )
}

/// `r` gathers `t` along axis `dim` at `indexes`.
pub open spec fn gathered_along<E>(
    t: NdArrayTensor<E>,
    dim: int,
    indexes: NdArrayTensor<i64>,
    r: NdArrayTensor<E>,
) -> bool {
    &&& r.wf()
    &&& r.dims() == indexes.dims()
    &&& forall|p: int|
        0 <= p < r.values().len() ==> #[trigger] r.values()[p] == t.at(
            gather_source_along(indexes.dims(), indexes.values(), dim, p),
        )
}

/// `r` is `t` with `value` added at the last-axis positions `indexes`.
pub open spec fn scatter_added(
    t: NdArrayTensor<i64>,
    indexes: NdArrayTensor<i64>,
    value: NdArrayTensor<i64>,
    r: NdArrayTensor<i64>,
) -> bool {
    &&& r.wf()
    &&& r.dims() == t.dims()
    &&& forall|q: int|
        0 <= q < r.values().len() ==> #[trigger] r.values()[q] == scatter_sum(
            t.values(),
            t.dims(),
            indexes.dims(),
            indexes.values(),
            value.values(),
            q,
            indexes.values().len() as int,
        )
}

/// `r` holds the sub-arrays of `t` along `dim` at the listed indexes.
pub open spec fn selected_along<E>(
    t: NdArrayTensor<E>,
    dim: int,
    indexes: NdArrayTensor<i64>,
    r: NdArrayTensor<E>,
) -> bool {
    &&& r.wf()
    &&& r.dims() == t.dims().update(dim, indexes.values().len() as usize)
    &&& forall|j: int|
        0 <= j < r.values().len() ==> #[trigger] r.values()[j] == t.at(
            unravel(r.dims(), j).update(dim, indexes.values()[unravel(r.dims(), j)[dim]] as int),
        )
}

/// `r` is `t` with the sub-arrays of `value` along `dim` added at the listed indexes.
pub open spec fn added_along(
    t: NdArrayTensor<i64>,
    dim: int,
    indexes: NdArrayTensor<i64>,
    value: NdArrayTensor<i64>,
    r: NdArrayTensor<i64>,
) -> bool {
    &&& r.wf()
    &&& r.dims() == t.dims()
    &&& forall|q: int|
        0 <= q < r.values().len() ==> #[trigger] r.values()[q] == axis_scatter_sum(
            t.values()[q],
            value,
            indexes.values(),
            unravel(t.dims(), q),
            dim,
            indexes.values().len() as int,
        )
}

/// `r` is the one-element sum of `t`.
pub open spec fn summed(t: NdArrayTensor<i64>, r: NdArrayTensor<i64>) -> bool {
    holds_view(r, seq![1usize], seq![total(t.values(), t.values().len() as int)])
}

/// `r` is the one-element mean of `t`.
pub open spec fn averaged(t: NdArrayTensor<i64>, r: NdArrayTensor<i64>) -> bool {
    holds_view(
        r,
        seq![1usize],
        seq![quotient(total(t.values(), t.values().len() as int), t.values().len() as i64)],
    )
}

/// `r` holds the sums of `t` along `dim`.
pub open spec fn summed_along(t: NdArrayTensor<i64>, dim: int, r: NdArrayTensor<i64>) -> bool {
    &&& r.wf()
    &&& r.dims() == reduced_dims(t.dims(), dim)
    &&& forall|j: int|
        0 <= j < r.values().len() ==> #[trigger] r.values()[j] == axis_sum(
            t,
            unravel(r.dims(), j),
            dim,
            t.dims()[dim] as int,
        )
}

/// `r` holds the means of `t` along `dim`.
pub open spec fn averaged_along(t: NdArrayTensor<i64>, dim: int, r: NdArrayTensor<i64>) -> bool {
    &&& r.wf()
    &&& r.dims() == reduced_dims(t.dims(), dim)
    &&& forall|j: int|
        0 <= j < r.values().len() ==> #[trigger] r.values()[j] == quotient(
            axis_sum(t, unravel(r.dims(), j), dim, t.dims()[dim] as int),
            t.dims()[dim] as i64,
        )
}

/// `r` holds, along `dim`, the first position of the largest element of `t`.
pub open spec fn arg_maxed(t: NdArrayTensor<i64>, dim: int, r: NdArrayTensor<i64>) -> bool {
    &&& r.wf()
    &&& r.dims() == reduced_dims(t.dims(), dim)
    &&& forall|j: int|
        0 <= j < r.values().len() ==> is_first_max(
            t,
            unravel(r.dims(), j),
            dim,
            #[trigger] r.values()[j] as int,
        )
}

/// `r` holds, along `dim`, the first position of the smallest element of `t`.
pub open spec fn arg_mined(t: NdArrayTensor<i64>, dim: int, r: NdArrayTensor<i64>) -> bool {
    &&& r.wf()
    &&& r.dims() == reduced_dims(t.dims(), dim)
    &&& forall|j: int|
        0 <= j < r.values().len() ==> is_first_min(
            t,
            unravel(r.dims(), j),
            dim,
            #[trigger] r.values()[j] as int,
        )
}

} // verus!
