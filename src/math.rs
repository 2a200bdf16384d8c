//! Numeric kernels of the CPU backend.
//!
//! Element-wise arithmetic is on 64-bit integers and wraps on overflow, as
//! integer arithmetic of the target machine does; masked writes and gathers
//! work on any copyable element type.

use vstd::prelude::*;

use crate::check::broadcastable;
use crate::shape::{
    as_index, in_bounds, num_elements_of, product, ravel, ravel_index, unravel, unravel_index, Shape,
};
use crate::tensor::NdArrayTensor;

verus! {

/// Two shapes of equal rank whose sizes can be broadcast together on every axis.
pub open spec fn compatible(lhs: Seq<usize>, rhs: Seq<usize>) -> bool {
    &&& lhs.len() == rhs.len()
    &&& forall|a: int| 0 <= a < lhs.len() ==> broadcastable(#[trigger] lhs[a], rhs[a])
}

/// The shape of the result of a broadcast element-wise operation.
pub open spec fn broadcast_dims(lhs: Seq<usize>, rhs: Seq<usize>) -> Seq<usize> {
    Seq::new(lhs.len(), |a: int| if lhs[a] == 1 { rhs[a] } else { lhs[a] })
}

/// The multi-index of an operand of sizes `dims` that a result multi-index reads:
/// axes of size 1 are always read at 0.
pub open spec fn collapse(idx: Seq<int>, dims: Seq<usize>) -> Seq<int> {
    Seq::new(idx.len(), |a: int| if dims[a] == 1 { 0 } else { idx[a] })
}

/// The element-wise operations.
pub enum BinaryOp {
    Add,
    Sub,
    Mul,
    Div,
}

/// Quotient truncated toward zero; the one overflowing case wraps to the minimum.
pub open spec fn quotient(a: i64, b: i64) -> i64 {
    match a.checked_div(b) {
        Some(q) => q,
        None => i64::MIN,
    }
}

/// The result of `op` on one pair of elements.
pub open spec fn apply(op: BinaryOp, a: i64, b: i64) -> i64 {
    match op {
        BinaryOp::Add => a.wrapping_add(b),
        BinaryOp::Sub => a.wrapping_sub(b),
        BinaryOp::Mul => a.wrapping_mul(b),
        BinaryOp::Div => quotient(a, b),
    }
}

fn apply_exec(op: &BinaryOp, a: i64, b: i64) -> (r: i64)
    requires
        *op is Div ==> b != 0,
    ensures
        r == apply(*op, a, b),
{
    match op {
        BinaryOp::Add => a.wrapping_add(b),
        BinaryOp::Sub => a.wrapping_sub(b),
        BinaryOp::Mul => a.wrapping_mul(b),
        BinaryOp::Div => match a.checked_div(b) {
            Some(q) => q,
            None => i64::MIN,
        },
    }
}

/// The broadcast result of `op` on two tensors.
pub open spec fn broadcast_result(
    op: BinaryOp,
    lhs: NdArrayTensor<i64>,
    rhs: NdArrayTensor<i64>,
    r: NdArrayTensor<i64>,
) -> bool {
    &&& r.wf()
    &&& r.dims() == broadcast_dims(lhs.dims(), rhs.dims())
    &&& forall|j: int|
        0 <= j < r.values().len() ==> #[trigger] r.values()[j] == apply(
            op,
            lhs.at(collapse(unravel(r.dims(), j), lhs.dims())),
            rhs.at(collapse(unravel(r.dims(), j), rhs.dims())),
        )
}

/// The divisor tensor holds no zero.
pub open spec fn no_zero(t: NdArrayTensor<i64>) -> bool {
    forall|k: int| 0 <= k < t.values().len() ==> #[trigger] t.values()[k] != 0
}

/// The element-wise result of `op` with the scalar `s` on the right.
pub open spec fn scalar_result(
    op: BinaryOp,
    lhs: NdArrayTensor<i64>,
    s: i64,
    r: NdArrayTensor<i64>,
) -> bool {
    &&& r.wf()
    &&& r.dims() == lhs.dims()
    &&& forall|j: int|
        0 <= j < r.values().len() ==> #[trigger] r.values()[j] == apply(op, lhs.values()[j], s)
}

pub(crate) fn broadcast_dims_exec(lhs: &Vec<usize>, rhs: &Vec<usize>) -> (r: Vec<usize>)
    requires
        lhs@.len() == rhs@.len(),
    ensures
        r@ == broadcast_dims(lhs@, rhs@),
{
    let mut r: Vec<usize> = Vec::new();
    let mut a: usize = 0;
    while a < lhs.len()
        invariant
            a <= lhs@.len(),
            lhs@.len() == rhs@.len(),
            r@ =~= broadcast_dims(lhs@, rhs@).subrange(0, a as int),
        decreases lhs@.len() - a,
    {
        if lhs[a] == 1 {
            r.push(rhs[a]);
        } else {
            r.push(lhs[a]);
        }
        a = a + 1;
    }
    r
}

/// The flat position in an operand of sizes `dims` read by result multi-index `u`.
pub(crate) fn collapsed_position(u: &Vec<usize>, out: &Vec<usize>, dims: &Vec<usize>) -> (r: usize)
    requires
        in_bounds(out@, as_index(u@)),
        out@.len() == dims@.len(),
        forall|a: int| 0 <= a < dims@.len() && dims@[a] != 1 ==> #[trigger] out@[a] == dims@[a],
        product(dims@) <= usize::MAX,
    ensures
        r == ravel(dims@, collapse(as_index(u@), dims@)),
        r < product(dims@),
{
    let mut c: Vec<usize> = Vec::new();
    let mut a: usize = 0;
    assert(as_index(u@).len() == u@.len());
    while a < dims.len()
        invariant
            a <= dims@.len(),
            out@.len() == dims@.len(),
            u@.len() == dims@.len(),
            in_bounds(out@, as_index(u@)),
            c@.len() == a,
            forall|b: int|
                0 <= b < a ==> #[trigger] c@[b] as int == collapse(as_index(u@), dims@)[b],
        decreases dims@.len() - a,
    {
        if dims[a] == 1 {
            c.push(0);
        } else {
            c.push(u[a]);
        }
        a = a + 1;
    }
    proof {
        assert(as_index(c@) =~= collapse(as_index(u@), dims@));
        assert forall|b: int| 0 <= b < dims@.len() implies 0 <= #[trigger] as_index(c@)[b]
            < dims@[b] by {
            assert(0 <= as_index(u@)[b] < out@[b]);
        }
    }
    ravel_index(dims, &c)
}

/// Numeric operations of the CPU backend.
pub struct NdArrayMathOps<E> {
    e: core::marker::PhantomData<E>,
}

impl NdArrayMathOps<i64> {
    /// `op` applied pair by pair, broadcasting axes of size 1.
    fn zip_broadcast(lhs: &NdArrayTensor<i64>, rhs: &NdArrayTensor<i64>, op: BinaryOp) -> (r:
        NdArrayTensor<i64>)
        requires
            lhs.wf(),
            rhs.wf(),
            compatible(lhs.dims(), rhs.dims()),
            product(broadcast_dims(lhs.dims(), rhs.dims())) <= usize::MAX,
            op is Div ==> no_zero(*rhs),
        ensures
            broadcast_result(op, *lhs, *rhs, r),
    {
        let ldims = &lhs.shape.dims;
        let rdims = &rhs.shape.dims;
        let out_dims = broadcast_dims_exec(ldims, rdims);
        let n = num_elements_of(&out_dims);
        let mut out: Vec<i64> = Vec::new();
        let mut j: usize = 0;
        while j < n
            invariant
                j <= n,
                n == product(out_dims@),
                out_dims@ == broadcast_dims(ldims@, rdims@),
                lhs.wf(),
                rhs.wf(),
                *ldims == lhs.shape.dims,
                *rdims == rhs.shape.dims,
                compatible(ldims@, rdims@),
                op is Div ==> no_zero(*rhs),
                out@.len() == j,
                forall|k: int|
                    0 <= k < j ==> #[trigger] out@[k] == apply(
                        op,
                        lhs.at(collapse(unravel(out_dims@, k), ldims@)),
                        rhs.at(collapse(unravel(out_dims@, k), rdims@)),
                    ),
            decreases n - j,
        {
            let u = unravel_index(&out_dims, j);
            proof {
                assert forall|a: int| 0 <= a < ldims@.len() && ldims@[a] != 1 implies #[trigger] out_dims@[a] == ldims@[a] by {}
                assert forall|a: int| 0 <= a < rdims@.len() && rdims@[a] != 1 implies #[trigger] out_dims@[a] == rdims@[a] by {
                    assert(broadcastable(ldims@[a], rdims@[a]));
                }
            }
            let pl = collapsed_position(&u, &out_dims, ldims);
            let pr = collapsed_position(&u, &out_dims, rdims);
            proof {
                if op is Div {
                    assert(rhs.values()[pr as int] != 0);
                }
            }
            let v = apply_exec(&op, lhs.data[pl], rhs.data[pr]);
            out.push(v);
            j = j + 1;
        }
        NdArrayTensor { shape: Shape { dims: out_dims }, data: out }
    }

    /// `op` applied to every element with the scalar `s` on the right.
    fn map_scalar(lhs: &NdArrayTensor<i64>, s: i64, op: BinaryOp) -> (r: NdArrayTensor<i64>)
        requires
            lhs.wf(),
            op is Div ==> s != 0,
        ensures
            scalar_result(op, *lhs, s, r),
    {
        let n = lhs.data.len();
        let mut out: Vec<i64> = Vec::new();
        let mut j: usize = 0;
        while j < n
            invariant
                j <= n,
                n == lhs.values().len(),
                op is Div ==> s != 0,
                out@.len() == j,
                forall|k: int| 0 <= k < j ==> #[trigger] out@[k] == apply(op, lhs.values()[k], s),
            decreases n - j,
        {
            out.push(apply_exec(&op, lhs.data[j], s));
            j = j + 1;
        }
        NdArrayTensor { shape: lhs.shape.clone_shape(), data: out }
    }

    pub fn add(lhs: NdArrayTensor<i64>, rhs: NdArrayTensor<i64>) -> (r: NdArrayTensor<i64>)
        requires
            lhs.wf(),
            rhs.wf(),
            compatible(lhs.dims(), rhs.dims()),
            product(broadcast_dims(lhs.dims(), rhs.dims())) <= usize::MAX,
        ensures
            broadcast_result(BinaryOp::Add, lhs, rhs, r),
    {
        Self::zip_broadcast(&lhs, &rhs, BinaryOp::Add)
    }

    pub fn add_scalar(lhs: NdArrayTensor<i64>, rhs: i64) -> (r: NdArrayTensor<i64>)
        requires
            lhs.wf(),
        ensures
            scalar_result(BinaryOp::Add, lhs, rhs, r),
    {
        Self::map_scalar(&lhs, rhs, BinaryOp::Add)
    }

    pub fn sub(lhs: NdArrayTensor<i64>, rhs: NdArrayTensor<i64>) -> (r: NdArrayTensor<i64>)
        requires
            lhs.wf(),
            rhs.wf(),
            compatible(lhs.dims(), rhs.dims()),
            product(broadcast_dims(lhs.dims(), rhs.dims())) <= usize::MAX,
        ensures
            broadcast_result(BinaryOp::Sub, lhs, rhs, r),
    {
        Self::zip_broadcast(&lhs, &rhs, BinaryOp::Sub)
    }

    pub fn sub_scalar(lhs: NdArrayTensor<i64>, rhs: i64) -> (r: NdArrayTensor<i64>)
        requires
            lhs.wf(),
        ensures
            scalar_result(BinaryOp::Sub, lhs, rhs, r),
    {
        Self::map_scalar(&lhs, rhs, BinaryOp::Sub)
    }

    pub fn mul(lhs: NdArrayTensor<i64>, rhs: NdArrayTensor<i64>) -> (r: NdArrayTensor<i64>)
        requires
            lhs.wf(),
            rhs.wf(),
            compatible(lhs.dims(), rhs.dims()),
            product(broadcast_dims(lhs.dims(), rhs.dims())) <= usize::MAX,
        ensures
            broadcast_result(BinaryOp::Mul, lhs, rhs, r),
    {
        Self::zip_broadcast(&lhs, &rhs, BinaryOp::Mul)
    }

    pub fn mul_scalar(lhs: NdArrayTensor<i64>, rhs: i64) -> (r: NdArrayTensor<i64>)
        requires
            lhs.wf(),
        ensures
            scalar_result(BinaryOp::Mul, lhs, rhs, r),
    {
        Self::map_scalar(&lhs, rhs, BinaryOp::Mul)
    }

    /// Division by zero is undefined, so every divisor must be non-zero.
    pub fn div(lhs: NdArrayTensor<i64>, rhs: NdArrayTensor<i64>) -> (r: NdArrayTensor<i64>)
        requires
            lhs.wf(),
            rhs.wf(),
            compatible(lhs.dims(), rhs.dims()),
            product(broadcast_dims(lhs.dims(), rhs.dims())) <= usize::MAX,
            no_zero(rhs),
        ensures
            broadcast_result(BinaryOp::Div, lhs, rhs, r),
    {
        Self::zip_broadcast(&lhs, &rhs, BinaryOp::Div)
    }

    pub fn div_scalar(lhs: NdArrayTensor<i64>, rhs: i64) -> (r: NdArrayTensor<i64>)
        requires
            lhs.wf(),
            rhs != 0,
        ensures
            scalar_result(BinaryOp::Div, lhs, rhs, r),
    {
        Self::map_scalar(&lhs, rhs, BinaryOp::Div)
    }
}

impl<E: Copy> NdArrayMathOps<E> {
    /// Replaces the elements where `mask` is true by `value`.
    pub fn mask_fill(tensor: NdArrayTensor<E>, mask: NdArrayTensor<bool>, value: E) -> (r:
        NdArrayTensor<E>)
        requires
            tensor.wf(),
            mask.wf(),
            mask.dims() == tensor.dims(),
        ensures
            r.wf(),
            r.dims() == tensor.dims(),
            forall|j: int|
                0 <= j < r.values().len() ==> #[trigger] r.values()[j] == if mask.values()[j] {
                    value
                } else {
                    tensor.values()[j]
                },
    {
        let n = tensor.data.len();
        let mut out: Vec<E> = Vec::new();
        let mut j: usize = 0;
        while j < n
            invariant
                j <= n,
                n == tensor.values().len(),
                mask.values().len() == n,
                out@.len() == j,
                forall|k: int|
                    0 <= k < j ==> #[trigger] out@[k] == if mask.values()[k] {
                        value
                    } else {
                        tensor.values()[k]
                    },
            decreases n - j,
        {
            if mask.data[j] {
                out.push(value);
            } else {
                out.push(tensor.data[j]);
            }
            j = j + 1;
        }
        NdArrayTensor { shape: tensor.shape, data: out }
    }

    /// Replaces the elements where `mask` is true by the element of `source` at the same place.
    pub fn mask_scatter(
        tensor: NdArrayTensor<E>,
        mask: NdArrayTensor<bool>,
        source: NdArrayTensor<E>,
    ) -> (r: NdArrayTensor<E>)
        requires
            tensor.wf(),
            mask.wf(),
            source.wf(),
            mask.dims() == tensor.dims(),
            source.dims() == tensor.dims(),
        ensures
            r.wf(),
            r.dims() == tensor.dims(),
            forall|j: int|
                0 <= j < r.values().len() ==> #[trigger] r.values()[j] == if mask.values()[j] {
                    source.values()[j]
                } else {
                    tensor.values()[j]
                },
    {
        let n = tensor.data.len();
        let mut out: Vec<E> = Vec::new();
        let mut j: usize = 0;
        while j < n
            invariant
                j <= n,
                n == tensor.values().len(),
                mask.values().len() == n,
                source.values().len() == n,
                out@.len() == j,
                forall|k: int|
                    0 <= k < j ==> #[trigger] out@[k] == if mask.values()[k] {
                        source.values()[k]
                    } else {
                        tensor.values()[k]
                    },
            decreases n - j,
        {
            if mask.data[j] {
                out.push(source.data[j]);
            } else {
                out.push(tensor.data[j]);
            }
            j = j + 1;
        }
        NdArrayTensor { shape: tensor.shape, data: out }
    }
}

} // verus!
