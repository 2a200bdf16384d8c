//! Element comparisons, producing boolean tensors, and the boolean family's operations.

use vstd::prelude::*;

use crate::check::broadcastable;
use crate::math::{
    broadcast_dims, broadcast_dims_exec, collapse, collapsed_position, compatible, NdArrayMathOps,
};
use crate::shape::{num_elements_of, product, unravel, unravel_index, Shape};
use crate::tensor::NdArrayTensor;

verus! {

/// The comparisons.
pub enum CmpOp {
    Equal,
    Greater,
    GreaterEqual,
    Lower,
    LowerEqual,
}

/// The outcome of comparing `a` with `b`.
pub open spec fn holds(op: CmpOp, a: i64, b: i64) -> bool {
    match op {
        CmpOp::Equal => a == b,
        CmpOp::Greater => a > b,
        CmpOp::GreaterEqual => a >= b,
        CmpOp::Lower => a < b,
        CmpOp::LowerEqual => a <= b,
    }
}

fn holds_exec(op: &CmpOp, a: i64, b: i64) -> (r: bool)
    ensures
        r == holds(*op, a, b),
{
    match op {
        CmpOp::Equal => a == b,
        CmpOp::Greater => a > b,
        CmpOp::GreaterEqual => a >= b,
        CmpOp::Lower => a < b,
        CmpOp::LowerEqual => a <= b,
    }
}

/// The broadcast comparison of two tensors.
pub open spec fn compared(
    op: CmpOp,
    lhs: NdArrayTensor<i64>,
    rhs: NdArrayTensor<i64>,
    r: NdArrayTensor<bool>,
) -> bool {
    &&& r.wf()
    &&& r.dims() == broadcast_dims(lhs.dims(), rhs.dims())
    &&& forall|j: int|
        0 <= j < r.values().len() ==> #[trigger] r.values()[j] == holds(
            op,
            lhs.at(collapse(unravel(r.dims(), j), lhs.dims())),
            rhs.at(collapse(unravel(r.dims(), j), rhs.dims())),
        )
}

/// The comparison of every element with the scalar `s`.
pub open spec fn compared_scalar(
    op: CmpOp,
    lhs: NdArrayTensor<i64>,
    s: i64,
    r: NdArrayTensor<bool>,
) -> bool {
    &&& r.wf()
    &&& r.dims() == lhs.dims()
    &&& forall|j: int|
        0 <= j < r.values().len() ==> #[trigger] r.values()[j] == holds(op, lhs.values()[j], s)
}

impl NdArrayMathOps<i64> {
    /// `op` on each pair of elements, broadcasting axes of size 1.
    pub fn compare(lhs: &NdArrayTensor<i64>, rhs: &NdArrayTensor<i64>, op: CmpOp) -> (r:
        NdArrayTensor<bool>)
        requires
            lhs.wf(),
            rhs.wf(),
            compatible(lhs.dims(), rhs.dims()),
            product(broadcast_dims(lhs.dims(), rhs.dims())) <= usize::MAX,
        ensures
            compared(op, *lhs, *rhs, r),
    {
        let ldims = &lhs.shape.dims;
        let rdims = &rhs.shape.dims;
        let out_dims = broadcast_dims_exec(ldims, rdims);
        let n = num_elements_of(&out_dims);
        let mut out: Vec<bool> = Vec::new();
        let mut j: usize = 0;
        while j < n
            invariant
                j <= n,
                n == product(out_dims@),
                out_dims@ == broadcast_dims(ldims@, rdims@),
                lhs.wf(),
                rhs.wf(),
                *ldims == lhs.shape.dims,
                *rdims == rhs.shape.dims,
                compatible(ldims@, rdims@),
                out@.len() == j,
                forall|k: int|
                    0 <= k < j ==> #[trigger] out@[k] == holds(
                        op,
                        lhs.at(collapse(unravel(out_dims@, k), ldims@)),
                        rhs.at(collapse(unravel(out_dims@, k), rdims@)),
                    ),
            decreases n - j,
        {
            let u = unravel_index(&out_dims, j);
            proof {
                assert forall|a: int| 0 <= a < rdims@.len() && rdims@[a] != 1 implies #[trigger] out_dims@[a] == rdims@[a] by {
                    assert(broadcastable(ldims@[a], rdims@[a]));
                }
            }
            let pl = collapsed_position(&u, &out_dims, ldims);
            let pr = collapsed_position(&u, &out_dims, rdims);
            out.push(holds_exec(&op, lhs.data[pl], rhs.data[pr]));
            j = j + 1;
        }
        NdArrayTensor { shape: Shape { dims: out_dims }, data: out }
    }

    /// `op` on each element with the scalar `s` on the right.
    pub fn compare_elem(lhs: &NdArrayTensor<i64>, s: i64, op: CmpOp) -> (r: NdArrayTensor<bool>)
        requires
            lhs.wf(),
        ensures
            compared_scalar(op, *lhs, s, r),
    {
        let n = lhs.data.len();
        let mut out: Vec<bool> = Vec::new();
        let mut j: usize = 0;
        while j < n
            invariant
                j <= n,
                n == lhs.values().len(),
                out@.len() == j,
                forall|k: int| 0 <= k < j ==> #[trigger] out@[k] == holds(op, lhs.values()[k], s),
            decreases n - j,
        {
            out.push(holds_exec(&op, lhs.data[j], s));
            j = j + 1;
        }
        NdArrayTensor { shape: lhs.shape.clone_shape(), data: out }
    }
}

impl NdArrayMathOps<bool> {
    /// Element-wise equality of two boolean tensors of the same shape.
    pub fn bool_equal(lhs: NdArrayTensor<bool>, rhs: NdArrayTensor<bool>) -> (r: NdArrayTensor<
        bool,
    >)
        requires
            lhs.wf(),
            rhs.wf(),
            lhs.dims() == rhs.dims(),
        ensures
            r.wf(),
            r.dims() == lhs.dims(),
            forall|j: int|
                0 <= j < r.values().len() ==> #[trigger] r.values()[j] == (lhs.values()[j]
                    == rhs.values()[j]),
    {
        let n = lhs.data.len();
        let mut out: Vec<bool> = Vec::new();
        let mut j: usize = 0;
        while j < n
            invariant
                j <= n,
                n == lhs.values().len(),
                rhs.values().len() == n,
                out@.len() == j,
                forall|k: int|
                    0 <= k < j ==> #[trigger] out@[k] == (lhs.values()[k] == rhs.values()[k]),
            decreases n - j,
        {
            out.push(lhs.data[j] == rhs.data[j]);
            j = j + 1;
        }
        NdArrayTensor { shape: lhs.shape, data: out }
    }

    /// Element-wise equality with the scalar `rhs`.
    pub fn bool_equal_elem(lhs: NdArrayTensor<bool>, rhs: bool) -> (r: NdArrayTensor<bool>)
        requires
            lhs.wf(),
        ensures
            r.wf(),
            r.dims() == lhs.dims(),
            forall|j: int|
                0 <= j < r.values().len() ==> #[trigger] r.values()[j] == (lhs.values()[j] == rhs),
    {
        let n = lhs.data.len();
        let mut out: Vec<bool> = Vec::new();
        let mut j: usize = 0;
        while j < n
            invariant
                j <= n,
                n == lhs.values().len(),
                out@.len() == j,
                forall|k: int| 0 <= k < j ==> #[trigger] out@[k] == (lhs.values()[k] == rhs),
            decreases n - j,
        {
            out.push(lhs.data[j] == rhs);
            j = j + 1;
        }
        NdArrayTensor { shape: lhs.shape, data: out }
    }

    /// `true` becomes 1 and `false` becomes 0.
    pub fn bool_into_int(tensor: NdArrayTensor<bool>) -> (r: NdArrayTensor<i64>)
        requires
            tensor.wf(),
        ensures
            r.wf(),
            r.dims() == tensor.dims(),
            forall|j: int|
                0 <= j < r.values().len() ==> #[trigger] r.values()[j] == if tensor.values()[j] {
                    1i64
                } else {
                    0i64
                },
    {
        let n = tensor.data.len();
        let mut out: Vec<i64> = Vec::new();
        let mut j: usize = 0;
        while j < n
            invariant
                j <= n,
                n == tensor.values().len(),
                out@.len() == j,
                forall|k: int|
                    0 <= k < j ==> #[trigger] out@[k] == if tensor.values()[k] {
                        1i64
                    } else {
                        0i64
                    },
            decreases n - j,
        {
            if tensor.data[j] {
                out.push(1);
            } else {
                out.push(0);
            }
            j = j + 1;
        }
        NdArrayTensor { shape: tensor.shape, data: out }
    }
}

} // verus!
