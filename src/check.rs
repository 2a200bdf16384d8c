//! Validation of tensor operations before they reach a backend kernel.
//!
//! Each check returns [`TensorCheck::Passed`] or a [`FailedTensorCheck`] that
//! gathers every violation found for one operation. Messages are only
//! assembled when a failed check is formatted.

use core::ops::Range;
use vstd::prelude::*;
use vstd::string::StringExecFns;

use crate::shape::{product, Device, Shape};
use crate::text::{
    decimal, dims_list, dims_text, push_decimal, push_dims, push_ranges, range_text, ranges_text,
};

verus! {

pub const INTO_SCALAR_FAILED: &'static str = "Only tensors with 1 element can be converted into scalar.";

pub const RESHAPE_FAILED: &'static str =
    "The given shape doesn't have the same number of elements as the current tensor.";

pub const FLATTEN_START_AFTER_END: &'static str = "The start dim must be smaller than the end dim.";

pub const FLATTEN_RANK_GROWS: &'static str = "The result dim must be smaller than the tensor dim.";

pub const FLATTEN_END_OUT_OF_RANK: &'static str = "The end dim must be smaller than the tensor dim.";

pub const UNSQUEEZE_FAILED: &'static str = "Can't unsqueeze smaller tensor.";

pub const SWAP_DIMS_FAILED: &'static str = "The swap dimensions must be smaller than the tensor dimension";

pub const MATMUL_INNER_FAILED: &'static str = "The inner dimension of matmul should be the same.";

pub const CAT_DIM_FAILED: &'static str =
    "Can't concatenate tensors on a dim that exceeds the tensors dimension";

pub const CAT_EMPTY_FAILED: &'static str = "Can't concatenate an empty list of tensors.";

pub const CAT_SHAPES_FAILED: &'static str =
    "Can't concatenate tensors with different shapes, except for the provided dimension";

pub const INDEX_RANK_FAILED: &'static str =
    "The provided indexes array has a higher number of dimensions than the current tensor.";

pub const INDEX_EXCEEDS_FAILED: &'static str =
    "The provided indexes array has a range that exceeds the current tensor size.";

pub const INDEX_EMPTY_FAILED: &'static str =
    "The provided indexes array has a range where the start index is bigger or equal to its end.";

pub const INDEX_VALUE_FAILED: &'static str =
    "The value tensor must match the amount of elements selected with the indexes array";

pub const AGGREGATE_DIM_FAILED: &'static str = "Can't aggregate a tensor on an axis it doesn't have.";

pub const INCOMPATIBLE_SHAPES: &'static str = "The provided tensors have incompatible shapes.";

pub const DEVICE_MISMATCH: &'static str = "The provided tensors are not on the same device.";

/// One violation: a short description, and optionally the offending values.
pub struct TensorError {
    pub description: String,
    pub details: Option<String>,
}

/// The text of one violation in a report, numbered from 1.
pub open spec fn error_text(e: TensorError, number: nat) -> Seq<char> {
    "\n    "@ + decimal(number) + ". "@ + e.description@ + " "@ + match e.details {
        Some(d) => d@ + " "@,
        None => seq![],
    }
}

/// The texts of the first `k` violations of `errors`, in order.
pub open spec fn errors_text(errors: Seq<TensorError>, k: int) -> Seq<char>
    decreases k,
{
    if k <= 0 {
        seq![]
    } else {
        errors_text(errors, k - 1) + error_text(errors[k - 1], k as nat)
    }
}

/// The first line of a report on operation `ops`.
pub open spec fn report_header(ops: Seq<char>) -> Seq<char> {
    "=== Tensor Operation Error ===\n  Operation: '"@ + ops + "'\n  Reason:"@
}

impl TensorError {
    pub fn new(description: &str) -> (r: TensorError)
        ensures
            r.description@ == description@,
            r.details is None,
    {
        TensorError { description: String::from_str(description), details: None }
    }

    pub fn details(self, details: String) -> (r: TensorError)
        ensures
            r.description == self.description,
            r.details == Some(details),
    {
        TensorError { description: self.description, details: Some(details) }
    }

    pub fn format(&self, number: usize) -> (r: String)
        ensures
            r@ == error_text(*self, number as nat),
    {
        let mut message = String::from_str("\n    ");
        push_decimal(&mut message, number);
        message.append(". ");
        message.append(self.description.as_str());
        message.append(" ");
        match &self.details {
            Some(d) => {
                message.append(d.as_str());
                message.append(" ");
            },
            None => {},
        }
        message
    }
}

/// Every violation found for one operation.
pub struct FailedTensorCheck {
    pub ops: String,
    pub errors: Vec<TensorError>,
}

impl FailedTensorCheck {
    /// The whole report as one message: a header naming the operation, then
    /// each violation on its own numbered line.
    pub fn format(self) -> (r: String)
        ensures
            r@ == report_header(self.ops@) + errors_text(self.errors@, self.errors@.len() as int)
                + "\n"@,
    {
        let mut message = String::from_str("=== Tensor Operation Error ===\n  Operation: '");
        message.append(self.ops.as_str());
        message.append("'\n  Reason:");
        let mut i: usize = 0;
        while i < self.errors.len()
            invariant
                i <= self.errors@.len(),
                message@ == report_header(self.ops@) + errors_text(self.errors@, i as int),
            decreases self.errors@.len() - i,
        {
            let line = self.errors[i].format(i + 1);
            message.append(line.as_str());
            i = i + 1;
        }
        message.append("\n");
        message
    }
}

/// The outcome of validating one operation.
pub enum TensorCheck {
    Passed,
    Failed(FailedTensorCheck),
}

/// A violation as a report shows it: its description, and its details if any.
pub open spec fn report(e: TensorError) -> (Seq<char>, Option<Seq<char>>) {
    (
        e.description@,
        match e.details {
            Some(d) => Some(d@),
            None => None,
        },
    )
}

/// A violation with this description and these details.
pub open spec fn found(description: Seq<char>, details: Seq<char>) -> (Seq<char>, Option<Seq<char>>) {
    (description, Some(details))
}

/// How a device is named in a report.
pub open spec fn device_text(d: Device) -> Seq<char> {
    match d {
        Device::Cpu => "Cpu"@,
        Device::Unit(n) => "Unit("@ + decimal(n as nat) + ")"@,
    }
}

pub open spec fn device_details(lhs: Device, rhs: Device) -> Seq<char> {
    "Lhs tensor device "@ + device_text(lhs) + ", Rhs tensor device "@ + device_text(rhs) + "."@
}

pub open spec fn broadcast_details(i: int, lhs: Seq<usize>, rhs: Seq<usize>) -> Seq<char> {
    "Incompatible size at dimension '"@ + decimal(i as nat) + "' => '"@ + decimal(lhs[i] as nat)
        + " != "@ + decimal(rhs[i] as nat) + "', which can't be broadcasted. Lhs tensor shape "@
        + dims_text(lhs) + ", Rhs tensor shape "@ + dims_text(rhs) + "."@
}

pub open spec fn scalar_details(n: nat) -> Seq<char> {
    "Current tensor has "@ + decimal(n) + " elements"@
}

pub open spec fn reshape_details(current: Seq<usize>, target: Seq<usize>) -> Seq<char> {
    "Current shape: "@ + dims_text(current) + ", target shape: "@ + dims_text(target)
        + ". Current elements: "@ + decimal(product(current)) + ", target elements: "@ + decimal(
        product(target),
    ) + "."@
}

pub open spec fn flatten_order_details(start_dim: nat, end_dim: nat) -> Seq<char> {
    "Start dim: "@ + decimal(start_dim) + ", end dim: "@ + decimal(end_dim) + "."@
}

pub open spec fn flatten_rank_details(result_rank: nat, rank: nat) -> Seq<char> {
    "Result dim: "@ + decimal(result_rank) + ", tensor dim: "@ + decimal(rank) + "."@
}

pub open spec fn flatten_end_details(end_dim: nat, rank: nat) -> Seq<char> {
    "End dim: "@ + decimal(end_dim) + ", tensor dim: "@ + decimal(rank) + "."@
}

pub open spec fn unsqueeze_details(result_rank: nat, rank: nat) -> Seq<char> {
    "Got dim "@ + decimal(result_rank) + ", expected at least "@ + decimal(rank) + "."@
}

pub open spec fn swap_details(dim1: nat, dim2: nat, rank: nat) -> Seq<char> {
    "Swap dims ("@ + decimal(dim1) + ", "@ + decimal(dim2) + ") on tensor with ("@ + decimal(rank)
        + ") dimensions."@
}

/// Names the two inner sizes of a matrix product and both shapes.
pub open spec fn matmul_details(lhs: Seq<usize>, rhs: Seq<usize>) -> Seq<char> {
    "Inner sizes "@ + decimal(lhs[lhs.len() - 1] as nat) + " and "@ + decimal(
        rhs[rhs.len() - 2] as nat,
    ) + ". Lhs shape "@ + dims_text(lhs) + ", rhs shape "@ + dims_text(rhs) + "."@
}

pub open spec fn cat_dim_details(rank: nat, dim: nat) -> Seq<char> {
    "Trying to concatenate tensors with "@ + decimal(rank) + " dimensions on axis "@ + decimal(dim)
        + "."@
}

/// The shapes of the first `k` tensors, separated by `", "`.
pub open spec fn shapes_list(shapes: Seq<Shape>, k: int) -> Seq<char>
    decreases k,
{
    if k <= 0 {
        seq![]
    } else if k == 1 {
        dims_text(shapes[0].dims@)
    } else {
        shapes_list(shapes, k - 1) + ", "@ + dims_text(shapes[k - 1].dims@)
    }
}

pub open spec fn cat_shapes_details(shapes: Seq<Shape>, dim: nat) -> Seq<char> {
    "Provided dimension ("@ + decimal(dim) + "), tensors shapes: "@ + shapes_list(
        shapes,
        shapes.len() as int,
    )
}

pub open spec fn index_rank_details(rank: nat, n: nat) -> Seq<char> {
    "The indexes array must be smaller or equal to the tensor number of dimensions. Tensor number of dimensions: "@
        + decimal(rank) + ", indexes array length "@ + decimal(n) + "."@
}

/// The shape and ranges of a ranged read, as its violations name them.
pub open spec fn index_context(dims: Seq<usize>, ranges: Seq<Range<usize>>) -> Seq<char> {
    "Tensor shape "@ + dims_text(dims) + ", provided indexes "@ + ranges_text(ranges) + "."@
}

/// The shapes and ranges of a ranged write, as its violations name them.
pub open spec fn assign_context(
    dims: Seq<usize>,
    value_dims: Seq<usize>,
    ranges: Seq<Range<usize>>,
) -> Seq<char> {
    "Current tensor shape "@ + dims_text(dims) + ", value tensor shape "@ + dims_text(value_dims)
        + ", provided indexes "@ + ranges_text(ranges) + "."@
}

pub open spec fn exceeds_details(r: Range<usize>, size: nat, i: nat, context: Seq<char>) -> Seq<
    char,
> {
    "The range ("@ + range_text(r) + ") exceeds the size of the tensor ("@ + decimal(size)
        + ") at dimension "@ + decimal(i) + ". "@ + context
}

pub open spec fn empty_details(r: Range<usize>, i: nat, context: Seq<char>) -> Seq<char> {
    "The range at dimension '"@ + decimal(i) + "' starts at '"@ + decimal(r.start as nat)
        + "' and is greater or equal to its end '"@ + decimal(r.end as nat) + "'. "@ + context
}

pub open spec fn value_details(r: Range<usize>, size: nat, i: nat, context: Seq<char>) -> Seq<
    char,
> {
    "The range ("@ + range_text(r) + ") doesn't match the number of elements of the value tensor ("@
        + decimal(size) + ") at dimension "@ + decimal(i) + ". "@ + context
}

pub open spec fn aggregate_details(rank: nat, dim: nat) -> Seq<char> {
    "Can't aggregate a tensor with ("@ + decimal(rank) + ") dimensions on axis ("@ + decimal(dim)
        + ")."@
}

/// Sizes that broadcasting can pair: equal, or one of them is 1.
pub open spec fn broadcastable(a: usize, b: usize) -> bool {
    a == b || a == 1 || b == 1
}

/// One violation per axis below `n` whose sizes cannot be broadcast together.
pub open spec fn broadcast_failures(lhs: Seq<usize>, rhs: Seq<usize>, n: int) -> Seq<
    (Seq<char>, Option<Seq<char>>),
>
    decreases n,
{
    if n <= 0 {
        seq![]
    } else {
        broadcast_failures(lhs, rhs, n - 1) + if broadcastable(lhs[n - 1], rhs[n - 1]) {
            seq![]
        } else {
            seq![found(INCOMPATIBLE_SHAPES@, broadcast_details(n - 1, lhs, rhs))]
        }
    }
}

/// The violations of ranged reading at axis `k`.
pub open spec fn axis_read_failures(dims: Seq<usize>, ranges: Seq<Range<usize>>, k: int) -> Seq<
    (Seq<char>, Option<Seq<char>>),
> {
    let r = ranges[k];
    let context = index_context(dims, ranges);
    (if r.end > dims[k] {
        seq![found(INDEX_EXCEEDS_FAILED@, exceeds_details(r, dims[k] as nat, k as nat, context))]
    } else {
        seq![]
    }) + (if r.start >= r.end {
        seq![found(INDEX_EMPTY_FAILED@, empty_details(r, k as nat, context))]
    } else {
        seq![]
    })
}

/// The violations of ranged reading for the axes below `n`.
pub open spec fn index_failures(dims: Seq<usize>, ranges: Seq<Range<usize>>, n: int) -> Seq<
    (Seq<char>, Option<Seq<char>>),
>
    decreases n,
{
    if n <= 0 {
        seq![]
    } else {
        index_failures(dims, ranges, n - 1) + axis_read_failures(dims, ranges, n - 1)
    }
}

/// The violations of ranged writing at axis `k`.
pub open spec fn axis_assign_failures(
    dims: Seq<usize>,
    value_dims: Seq<usize>,
    ranges: Seq<Range<usize>>,
    k: int,
) -> Seq<(Seq<char>, Option<Seq<char>>)> {
    let r = ranges[k];
    let context = assign_context(dims, value_dims, ranges);
    (if r.end > dims[k] {
        seq![found(INDEX_EXCEEDS_FAILED@, exceeds_details(r, dims[k] as nat, k as nat, context))]
    } else {
        seq![]
    }) + (if r.end - r.start != value_dims[k] {
        seq![
            found(
                INDEX_VALUE_FAILED@,
                value_details(r, value_dims[k] as nat, k as nat, context),
            ),
        ]
    } else {
        seq![]
    }) + (if r.start >= r.end {
        seq![found(INDEX_EMPTY_FAILED@, empty_details(r, k as nat, context))]
    } else {
        seq![]
    })
}

/// The violations of ranged writing for the axes below `n`.
pub open spec fn index_assign_failures(
    dims: Seq<usize>,
    value_dims: Seq<usize>,
    ranges: Seq<Range<usize>>,
    n: int,
) -> Seq<(Seq<char>, Option<Seq<char>>)>
    decreases n,
{
    if n <= 0 {
        seq![]
    } else {
        index_assign_failures(dims, value_dims, ranges, n - 1) + axis_assign_failures(
            dims,
            value_dims,
            ranges,
            n - 1,
        )
    }
}

/// `dims` with axis `dim` (if it has one) set to 1.
pub open spec fn without_axis(dims: Seq<usize>, dim: int) -> Seq<usize> {
    if 0 <= dim < dims.len() {
        dims.update(dim, 1)
    } else {
        dims
    }
}

/// Two shapes that agree on every axis except `dim`.
pub open spec fn same_except(a: Seq<usize>, b: Seq<usize>, dim: int) -> bool {
    without_axis(a, dim) == without_axis(b, dim)
}

pub open spec fn min_int(a: int, b: int) -> int {
    if a < b {
        a
    } else {
        b
    }
}

/// No violation, or exactly one.
pub open spec fn one_if(cond: bool, v: (Seq<char>, Option<Seq<char>>)) -> Seq<
    (Seq<char>, Option<Seq<char>>),
> {
    if cond {
        seq![v]
    } else {
        seq![]
    }
}

impl TensorCheck {
    /// A failed check holds at least one violation.
    pub open spec fn wf(&self) -> bool {
        match self {
            TensorCheck::Passed => true,
            TensorCheck::Failed(f) => f.errors@.len() > 0,
        }
    }

    pub open spec fn errors(&self) -> Seq<TensorError> {
        match self {
            TensorCheck::Passed => seq![],
            TensorCheck::Failed(f) => f.errors@,
        }
    }

    /// The violations, each as its description and details, in the order they were found.
    pub open spec fn reports(&self) -> Seq<(Seq<char>, Option<Seq<char>>)> {
        self.errors().map_values(|e: TensorError| report(e))
    }

    /// The operation named by the last violation.
    pub open spec fn ops_name(&self) -> Seq<char> {
        match self {
            TensorCheck::Passed => seq![],
            TensorCheck::Failed(f) => f.ops@,
        }
    }

    pub fn is_ok(&self) -> (r: bool)
        ensures
            r == (self is Passed),
    {
        match self {
            TensorCheck::Passed => true,
            TensorCheck::Failed(_) => false,
        }
    }

    /// The formatted report of a failed check, or `None` when it passed.
    pub fn message(self) -> (r: Option<String>)
        ensures
            self is Passed ==> r is None,
            self matches TensorCheck::Failed(f) ==> r matches Some(m) && m@ == report_header(
                f.ops@,
            ) + errors_text(f.errors@, f.errors@.len() as int) + "\n"@,
    {
        match self {
            TensorCheck::Passed => None,
            TensorCheck::Failed(f) => Some(f.format()),
        }
    }

    /// Adds a violation of operation `ops` to the report.
    fn register(self, ops: &str, error: TensorError) -> (r: Self)
        requires
            self.wf(),
        ensures
            r is Failed,
            r.wf(),
            r.ops_name() == ops@,
            r.errors() == self.errors().push(error),
            r.reports() == self.reports().push(report(error)),
    {
        let ghost e = error;
        let errors = match self {
            TensorCheck::Passed => vec![error],
            TensorCheck::Failed(mut failed) => {
                failed.errors.push(error);
                failed.errors
            },
        };
        let r = TensorCheck::Failed(FailedTensorCheck { ops: String::from_str(ops), errors });
        assert(r.reports() =~= self.reports().push(report(e)));
        r
    }

    /// Adds a violation with details to the report.
    fn register_with(self, ops: &str, description: &str, details: String) -> (r: Self)
        requires
            self.wf(),
        ensures
            r is Failed,
            r.wf(),
            r.ops_name() == ops@,
            r.errors().len() == self.errors().len() + 1,
            r.errors().subrange(0, self.errors().len() as int) == self.errors(),
            r.reports() == self.reports().push(found(description@, details@)),
    {
        let r = self.register(ops, TensorError::new(description).details(details));
        assert(r.errors().subrange(0, self.errors().len() as int) =~= self.errors());
        r
    }

    /// Checks devices and shapes of the operands of an elementwise binary operation.
    pub fn binary_ops_ew(
        ops: &str,
        lhs: &Shape,
        lhs_device: &Device,
        rhs: &Shape,
        rhs_device: &Device,
    ) -> (r: Self)
        requires
            lhs.dims@.len() == rhs.dims@.len(),
        ensures
            r.wf(),
            r.reports() == one_if(
                lhs_device != rhs_device,
                found(DEVICE_MISMATCH@, device_details(*lhs_device, *rhs_device)),
            ) + broadcast_failures(lhs.dims@, rhs.dims@, lhs.dims@.len() as int),
            r is Passed <==> (lhs_device == rhs_device && forall|i: int|
                0 <= i < lhs.dims@.len() ==> broadcastable(#[trigger] lhs.dims@[i], rhs.dims@[i])),
            r is Failed ==> r.ops_name() == ops@,
    {
        let check = TensorCheck::Passed.binary_ops_device(ops, lhs_device, rhs_device);
        let r = check.binary_ops_ew_shape(ops, lhs, rhs);
        proof {
            lemma_broadcast_failures_empty(lhs.dims@, rhs.dims@, lhs.dims@.len() as int);
        }
        r
    }

    pub fn into_scalar(shape: &Shape) -> (r: Self)
        requires
            shape.wf(),
        ensures
            r.wf(),
            r.reports() == one_if(
                product(shape.dims@) != 1,
                found(INTO_SCALAR_FAILED@, scalar_details(product(shape.dims@))),
            ),
            r is Passed <==> product(shape.dims@) == 1,
            r is Failed ==> r.ops_name() == "Into Scalar"@,
    {
        let mut check = TensorCheck::Passed;
        let n = shape.num_elements();
        if n != 1 {
            let mut details = String::from_str("Current tensor has ");
            push_decimal(&mut details, n);
            details.append(" elements");
            check = check.register_with("Into Scalar", INTO_SCALAR_FAILED, details);
        }
        assert(check.reports() =~= one_if(
            product(shape.dims@) != 1,
            found(INTO_SCALAR_FAILED@, scalar_details(product(shape.dims@))),
        ));
        check
    }

    /// Any permutation passes: the kernels accept every axis order.
    pub fn permute(shape: &Shape, permutation: &Vec<usize>) -> (r: Self)
        ensures
            r is Passed,
    {
        TensorCheck::Passed
    }

    /// Reshaping must keep the number of elements.
    pub fn reshape(current: &Shape, target: &Shape) -> (r: Self)
        requires
            current.wf(),
            target.wf(),
        ensures
            r.wf(),
            r is Passed <==> product(current.dims@) == product(target.dims@),
            r.reports() == one_if(
                product(current.dims@) != product(target.dims@),
                found(RESHAPE_FAILED@, reshape_details(current.dims@, target.dims@)),
            ),
            r is Failed ==> r.ops_name() == "Reshape"@,
    {
        let mut check = TensorCheck::Passed;
        let n_current = current.num_elements();
        let n_target = target.num_elements();
        if n_current != n_target {
            let mut details = String::from_str("Current shape: ");
            push_dims(&mut details, &current.dims);
            details.append(", target shape: ");
            push_dims(&mut details, &target.dims);
            details.append(". Current elements: ");
            push_decimal(&mut details, n_current);
            details.append(", target elements: ");
            push_decimal(&mut details, n_target);
            details.append(".");
            check = check.register_with("Reshape", RESHAPE_FAILED, details);
        }
        assert(check.reports() =~= one_if(
            n_current != n_target,
            found(RESHAPE_FAILED@, reshape_details(current.dims@, target.dims@)),
        ));
        check
    }

    /// Collapsing axes `start_dim..=end_dim` of a tensor of rank `rank` into a
    /// tensor of rank `result_rank`.
    pub fn flatten(rank: usize, result_rank: usize, start_dim: usize, end_dim: usize) -> (r: Self)
        ensures
            r.wf(),
            r.reports() == one_if(
                start_dim > end_dim,
                found(
                    FLATTEN_START_AFTER_END@,
                    flatten_order_details(start_dim as nat, end_dim as nat),
                ),
            ) + one_if(
                result_rank > rank,
                found(FLATTEN_RANK_GROWS@, flatten_rank_details(result_rank as nat, rank as nat)),
            ) + one_if(
                end_dim >= rank,
                found(FLATTEN_END_OUT_OF_RANK@, flatten_end_details(end_dim as nat, rank as nat)),
            ),
            r is Failed ==> r.ops_name() == "Flatten"@,
    {
        let mut check = TensorCheck::Passed;
        if start_dim > end_dim {
            let mut details = String::from_str("Start dim: ");
            push_decimal(&mut details, start_dim);
            details.append(", end dim: ");
            push_decimal(&mut details, end_dim);
            details.append(".");
            check = check.register_with("Flatten", FLATTEN_START_AFTER_END, details);
        }
        let ghost d1 = check.reports();
        if result_rank > rank {
            let mut details = String::from_str("Result dim: ");
            push_decimal(&mut details, result_rank);
            details.append(", tensor dim: ");
            push_decimal(&mut details, rank);
            details.append(".");
            check = check.register_with("Flatten", FLATTEN_RANK_GROWS, details);
        }
        let ghost d2 = check.reports();
        if end_dim >= rank {
            let mut details = String::from_str("End dim: ");
            push_decimal(&mut details, end_dim);
            details.append(", tensor dim: ");
            push_decimal(&mut details, rank);
            details.append(".");
            check = check.register_with("Flatten", FLATTEN_END_OUT_OF_RANK, details);
        }
        assert(check.reports() =~= one_if(
            start_dim > end_dim,
            found(FLATTEN_START_AFTER_END@, flatten_order_details(start_dim as nat, end_dim as nat)),
        ) + one_if(
            result_rank > rank,
            found(FLATTEN_RANK_GROWS@, flatten_rank_details(result_rank as nat, rank as nat)),
        ) + one_if(
            end_dim >= rank,
            found(FLATTEN_END_OUT_OF_RANK@, flatten_end_details(end_dim as nat, rank as nat)),
        ));
        check
    }

    /// Raising a tensor of rank `rank` to rank `result_rank`.
    pub fn unsqueeze(rank: usize, result_rank: usize) -> (r: Self)
        ensures
            r.wf(),
            r.reports() == one_if(
                result_rank < rank,
                found(UNSQUEEZE_FAILED@, unsqueeze_details(result_rank as nat, rank as nat)),
            ),
            r is Failed ==> r.ops_name() == "Unsqueeze"@,
    {
        let mut check = TensorCheck::Passed;
        if result_rank < rank {
            let mut details = String::from_str("Got dim ");
            push_decimal(&mut details, result_rank);
            details.append(", expected at least ");
            push_decimal(&mut details, rank);
            details.append(".");
            check = check.register_with("Unsqueeze", UNSQUEEZE_FAILED, details);
        }
        assert(check.reports() =~= one_if(
            result_rank < rank,
            found(UNSQUEEZE_FAILED@, unsqueeze_details(result_rank as nat, rank as nat)),
        ));
        check
    }

    /// Swapping axes `dim1` and `dim2` of a tensor of rank `rank`.
    pub fn swap_dims(rank: usize, dim1: usize, dim2: usize) -> (r: Self)
        ensures
            r.wf(),
            r.reports() == one_if(
                dim1 >= rank || dim2 >= rank,
                found(SWAP_DIMS_FAILED@, swap_details(dim1 as nat, dim2 as nat, rank as nat)),
            ),
            r is Failed ==> r.ops_name() == "Swap Dims"@,
    {
        let mut check = TensorCheck::Passed;
        if dim1 >= rank || dim2 >= rank {
            let mut details = String::from_str("Swap dims (");
            push_decimal(&mut details, dim1);
            details.append(", ");
            push_decimal(&mut details, dim2);
            details.append(") on tensor with (");
            push_decimal(&mut details, rank);
            details.append(") dimensions.");
            check = check.register_with("Swap Dims", SWAP_DIMS_FAILED, details);
        }
        assert(check.reports() =~= one_if(
            dim1 >= rank || dim2 >= rank,
            found(SWAP_DIMS_FAILED@, swap_details(dim1 as nat, dim2 as nat, rank as nat)),
        ));
        check
    }

    /// Checks the operands of a matrix product.
    pub fn matmul(lhs: &Shape, lhs_device: &Device, rhs: &Shape, rhs_device: &Device) -> (r: Self)
        requires
            lhs.dims@.len() == rhs.dims@.len(),
        ensures
            r.wf(),
            r.reports() == one_if(
                lhs_device != rhs_device,
                found(DEVICE_MISMATCH@, device_details(*lhs_device, *rhs_device)),
            ) + one_if(
                lhs.dims@.len() >= 2 && lhs.dims@[lhs.dims@.len() - 1] != rhs.dims@[rhs.dims@.len()
                    - 2],
                found(MATMUL_INNER_FAILED@, matmul_details(lhs.dims@, rhs.dims@)),
            ),
            r is Failed ==> r.ops_name() == "Matmul"@,
    {
        let mut check = TensorCheck::Passed;
        check = check.binary_ops_device("Matmul", lhs_device, rhs_device);
        let ghost d1 = check.reports();
        assert(d1 =~= one_if(
            lhs_device != rhs_device,
            found(DEVICE_MISMATCH@, device_details(*lhs_device, *rhs_device)),
        ));
        let rank = lhs.dims.len();
        if rank < 2 {
            assert(check.reports() =~= d1 + seq![]);
            return check;
        }
        let dim_lhs = lhs.dims[rank - 1];
        let dim_rhs = rhs.dims[rank - 2];
        if dim_lhs != dim_rhs {
            let mut details = String::from_str("Inner sizes ");
            push_decimal(&mut details, dim_lhs);
            details.append(" and ");
            push_decimal(&mut details, dim_rhs);
            details.append(". Lhs shape ");
            push_dims(&mut details, &lhs.dims);
            details.append(", rhs shape ");
            push_dims(&mut details, &rhs.dims);
            details.append(".");
            check = check.register_with("Matmul", MATMUL_INNER_FAILED, details);
        }
        assert(check.reports() =~= d1 + one_if(
            dim_lhs != dim_rhs,
            found(MATMUL_INNER_FAILED@, matmul_details(lhs.dims@, rhs.dims@)),
        ));
        check
    }

    /// Checks the operands of a concatenation along axis `dim`.
    pub fn cat(shapes: &Vec<Shape>, dim: usize) -> (r: Self)
        ensures
            r.wf(),
            shapes@.len() == 0 ==> r.reports() == seq![(CAT_EMPTY_FAILED@, None::<Seq<char>>)],
            shapes@.len() > 0 ==> r.reports() == one_if(
                dim >= shapes@[0].dims@.len(),
                found(CAT_DIM_FAILED@, cat_dim_details(shapes@[0].dims@.len(), dim as nat)),
            ) + one_if(
                !(forall|i: int|
                    0 <= i < shapes@.len() ==> same_except(
                        #[trigger] shapes@[i].dims@,
                        shapes@[0].dims@,
                        dim as int,
                    )),
                found(CAT_SHAPES_FAILED@, cat_shapes_details(shapes@, dim as nat)),
            ),
            r is Failed ==> r.ops_name() == "Cat"@,
    {
        let mut check = TensorCheck::Passed;
        if shapes.len() == 0 {
            let r = check.register("Cat", TensorError::new(CAT_EMPTY_FAILED));
            assert(r.reports() =~= seq![(CAT_EMPTY_FAILED@, None::<Seq<char>>)]);
            return r;
        }
        let rank = shapes[0].dims.len();
        if dim >= rank {
            let mut details = String::from_str("Trying to concatenate tensors with ");
            push_decimal(&mut details, rank);
            details.append(" dimensions on axis ");
            push_decimal(&mut details, dim);
            details.append(".");
            check = check.register_with("Cat", CAT_DIM_FAILED, details);
        }
        let ghost d1 = check.reports();
        assert(d1 =~= one_if(
            dim >= rank,
            found(CAT_DIM_FAILED@, cat_dim_details(rank as nat, dim as nat)),
        ));
        let mut i: usize = 0;
        while i < shapes.len()
            invariant
                i <= shapes@.len(),
                shapes@.len() > 0,
                rank == shapes@[0].dims@.len(),
                check.wf(),
                check.reports() == d1,
                d1 == one_if(
                    dim >= rank,
                    found(CAT_DIM_FAILED@, cat_dim_details(rank as nat, dim as nat)),
                ),
                check is Failed ==> check.ops_name() == "Cat"@,
                forall|k: int|
                    0 <= k < i ==> same_except(
                        #[trigger] shapes@[k].dims@,
                        shapes@[0].dims@,
                        dim as int,
                    ),
            decreases shapes@.len() - i,
        {
            if !same_dims_except(&shapes[i].dims, &shapes[0].dims, dim) {
                let details = cat_details(shapes, dim);
                let r = check.register_with("Cat", CAT_SHAPES_FAILED, details);
                assert(!same_except(shapes@[i as int].dims@, shapes@[0].dims@, dim as int));
                assert(!(forall|k: int|
                    0 <= k < shapes@.len() ==> same_except(
                        #[trigger] shapes@[k].dims@,
                        shapes@[0].dims@,
                        dim as int,
                    )));
                assert(r.reports() =~= d1 + seq![
                    found(CAT_SHAPES_FAILED@, cat_shapes_details(shapes@, dim as nat)),
                ]);
                return r;
            }
            i = i + 1;
        }
        assert(check.reports() =~= d1 + seq![]);
        check
    }

    /// Checks reading the ranges `indexes` (one per leading axis) of a tensor of shape `shape`.
    pub fn index(shape: &Shape, indexes: &Vec<Range<usize>>) -> (r: Self)
        ensures
            r.wf(),
            r.reports() == one_if(
                indexes@.len() > shape.dims@.len(),
                found(
                    INDEX_RANK_FAILED@,
                    index_rank_details(shape.dims@.len(), indexes@.len()),
                ),
            ) + index_failures(
                shape.dims@,
                indexes@,
                min_int(shape.dims@.len() as int, indexes@.len() as int),
            ),
            r is Passed <==> (indexes@.len() <= shape.dims@.len() && forall|i: int|
                0 <= i < indexes@.len() ==> (#[trigger] indexes@[i]).start < indexes@[i].end
                    && indexes@[i].end <= shape.dims@[i]),
            r is Failed ==> r.ops_name() == "Index"@,
    {
        let mut check = TensorCheck::Passed;
        let n_dims_tensor = shape.dims.len();
        let n_dims_indexes = indexes.len();
        if n_dims_tensor < n_dims_indexes {
            let details = rank_details(n_dims_tensor, n_dims_indexes);
            check = check.register_with("Index", INDEX_RANK_FAILED, details);
        }
        let ghost d1 = check.reports();
        assert(d1 =~= one_if(
            n_dims_indexes > n_dims_tensor,
            found(INDEX_RANK_FAILED@, index_rank_details(n_dims_tensor as nat, n_dims_indexes as nat)),
        ));
        let n = if n_dims_tensor < n_dims_indexes {
            n_dims_tensor
        } else {
            n_dims_indexes
        };
        let mut context = String::from_str("Tensor shape ");
        push_dims(&mut context, &shape.dims);
        context.append(", provided indexes ");
        push_ranges(&mut context, indexes);
        context.append(".");
        let mut i: usize = 0;
        while i < n
            invariant
                i <= n,
                n == min_int(shape.dims@.len() as int, indexes@.len() as int),
                context@ == index_context(shape.dims@, indexes@),
                check.wf(),
                check.reports() == d1 + index_failures(shape.dims@, indexes@, i as int),
                check is Failed ==> check.ops_name() == "Index"@,
            decreases n - i,
        {
            let ghost before = check.reports();
            check = check.index_axis(i, shape, indexes, &context);
            assert(check.reports() =~= d1 + index_failures(shape.dims@, indexes@, i + 1));
            i = i + 1;
        }
        proof {
            lemma_index_failures_empty(shape.dims@, indexes@, n as int);
        }
        check
    }

    /// The violations of ranged reading at axis `i`.
    fn index_axis(self, i: usize, shape: &Shape, indexes: &Vec<Range<usize>>, context: &String) -> (r:
        Self)
        requires
            self.wf(),
            i < shape.dims@.len(),
            i < indexes@.len(),
            context@ == index_context(shape.dims@, indexes@),
            self is Failed ==> self.ops_name() == "Index"@,
        ensures
            r.wf(),
            r.reports() == self.reports() + axis_read_failures(shape.dims@, indexes@, i as int),
            r is Failed ==> r.ops_name() == "Index"@,
    {
        let mut check = self;
        let d_tensor = shape.dims[i];
        let range = &indexes[i];
        if range.end > d_tensor {
            let details = exceeds_text(range, d_tensor, i, context);
            check = check.register_with("Index", INDEX_EXCEEDS_FAILED, details);
        }
        if range.start >= range.end {
            let details = empty_text(range, i, context);
            check = check.register_with("Index", INDEX_EMPTY_FAILED, details);
        }
        assert(check.reports() =~= self.reports() + axis_read_failures(
            shape.dims@,
            indexes@,
            i as int,
        ));
        check
    }

    /// Checks writing a value tensor of shape `shape_value` into the ranges
    /// `indexes` of a tensor of shape `shape`.
    pub fn index_assign(shape: &Shape, shape_value: &Shape, indexes: &Vec<Range<usize>>) -> (r:
        Self)
        requires
            shape.dims@.len() == shape_value.dims@.len(),
        ensures
            r.wf(),
            r.reports() == one_if(
                indexes@.len() > shape.dims@.len(),
                found(
                    INDEX_RANK_FAILED@,
                    index_rank_details(shape.dims@.len(), indexes@.len()),
                ),
            ) + index_assign_failures(
                shape.dims@,
                shape_value.dims@,
                indexes@,
                min_int(shape.dims@.len() as int, indexes@.len() as int),
            ),
            r is Passed <==> (indexes@.len() <= shape.dims@.len() && forall|i: int|
                0 <= i < indexes@.len() ==> (#[trigger] indexes@[i]).start < indexes@[i].end
                    && indexes@[i].end <= shape.dims@[i] && indexes@[i].end - indexes@[i].start
                    == shape_value.dims@[i]),
            r is Failed ==> r.ops_name() == "Index Assign"@,
    {
        let mut check = TensorCheck::Passed;
        let n_dims_tensor = shape.dims.len();
        let n_dims_indexes = indexes.len();
        if n_dims_tensor < n_dims_indexes {
            let details = rank_details(n_dims_tensor, n_dims_indexes);
            check = check.register_with("Index Assign", INDEX_RANK_FAILED, details);
        }
        let ghost d1 = check.reports();
        assert(d1 =~= one_if(
            n_dims_indexes > n_dims_tensor,
            found(INDEX_RANK_FAILED@, index_rank_details(n_dims_tensor as nat, n_dims_indexes as nat)),
        ));
        let n = if n_dims_tensor < n_dims_indexes {
            n_dims_tensor
        } else {
            n_dims_indexes
        };
        let mut context = String::from_str("Current tensor shape ");
        push_dims(&mut context, &shape.dims);
        context.append(", value tensor shape ");
        push_dims(&mut context, &shape_value.dims);
        context.append(", provided indexes ");
        push_ranges(&mut context, indexes);
        context.append(".");
        let mut i: usize = 0;
        while i < n
            invariant
                i <= n,
                n == min_int(shape.dims@.len() as int, indexes@.len() as int),
                shape.dims@.len() == shape_value.dims@.len(),
                context@ == assign_context(shape.dims@, shape_value.dims@, indexes@),
                check.wf(),
                check.reports() == d1 + index_assign_failures(
                    shape.dims@,
                    shape_value.dims@,
                    indexes@,
                    i as int,
                ),
                check is Failed ==> check.ops_name() == "Index Assign"@,
            decreases n - i,
        {
            check = check.index_assign_axis(i, shape, shape_value, indexes, &context);
            assert(check.reports() =~= d1 + index_assign_failures(
                shape.dims@,
                shape_value.dims@,
                indexes@,
                i + 1,
            ));
            i = i + 1;
        }
        proof {
            lemma_index_assign_failures_empty(shape.dims@, shape_value.dims@, indexes@, n as int);
        }
        check
    }

    /// The read and write violations of ranged writing at axis `i`.
    fn index_assign_axis(
        self,
        i: usize,
        shape: &Shape,
        shape_value: &Shape,
        indexes: &Vec<Range<usize>>,
        context: &String,
    ) -> (r: Self)
        requires
            self.wf(),
            i < shape.dims@.len(),
            i < indexes@.len(),
            shape.dims@.len() == shape_value.dims@.len(),
            context@ == assign_context(shape.dims@, shape_value.dims@, indexes@),
            self is Failed ==> self.ops_name() == "Index Assign"@,
        ensures
            r.wf(),
            r.reports() == self.reports() + axis_assign_failures(
                shape.dims@,
                shape_value.dims@,
                indexes@,
                i as int,
            ),
            r is Failed ==> r.ops_name() == "Index Assign"@,
    {
        let mut check = self;
        let d_tensor = shape.dims[i];
        let d_value = shape_value.dims[i];
        let range = &indexes[i];
        if range.end > d_tensor {
            let details = exceeds_text(range, d_tensor, i, context);
            check = check.register_with("Index Assign", INDEX_EXCEEDS_FAILED, details);
        }
        if range.start > range.end || range.end - range.start != d_value {
            let details = value_text(range, d_value, i, context);
            check = check.register_with("Index Assign", INDEX_VALUE_FAILED, details);
        }
        if range.start >= range.end {
            let details = empty_text(range, i, context);
            check = check.register_with("Index Assign", INDEX_EMPTY_FAILED, details);
        }
        assert(check.reports() =~= self.reports() + axis_assign_failures(
            shape.dims@,
            shape_value.dims@,
            indexes@,
            i as int,
        ));
        check
    }

    /// Checks an aggregation (such as a sum or mean) along axis `dim` of a tensor of rank `rank`.
    pub fn aggregate_dim(ops: &str, rank: usize, dim: usize) -> (r: Self)
        ensures
            r.wf(),
            r.reports() == one_if(
                dim >= rank,
                found(AGGREGATE_DIM_FAILED@, aggregate_details(rank as nat, dim as nat)),
            ),
            r is Failed ==> r.ops_name() == ops@,
    {
        let mut check = TensorCheck::Passed;
        if dim >= rank {
            let mut details = String::from_str("Can't aggregate a tensor with (");
            push_decimal(&mut details, rank);
            details.append(") dimensions on axis (");
            push_decimal(&mut details, dim);
            details.append(").");
            check = check.register_with(ops, AGGREGATE_DIM_FAILED, details);
        }
        assert(check.reports() =~= one_if(
            dim >= rank,
            found(AGGREGATE_DIM_FAILED@, aggregate_details(rank as nat, dim as nat)),
        ));
        check
    }

    /// Adds one violation for each axis whose sizes cannot be broadcast together;
    /// violations already found are kept as they are.
    pub fn binary_ops_ew_shape(self, ops: &str, lhs: &Shape, rhs: &Shape) -> (r: Self)
        requires
            self.wf(),
            lhs.dims@.len() == rhs.dims@.len(),
        ensures
            r.wf(),
            r.errors().len() >= self.errors().len(),
            r.errors().subrange(0, self.errors().len() as int) == self.errors(),
            r.reports() == self.reports() + broadcast_failures(
                lhs.dims@,
                rhs.dims@,
                lhs.dims@.len() as int,
            ),
            r is Passed <==> (self is Passed && forall|i: int|
                0 <= i < lhs.dims@.len() ==> broadcastable(#[trigger] lhs.dims@[i], rhs.dims@[i])),
            r.ops_name() == if broadcast_failures(lhs.dims@, rhs.dims@, lhs.dims@.len() as int).len()
                > 0 {
                ops@
            } else {
                self.ops_name()
            },
    {
        let mut check = self;
        let ghost d0 = self.reports();
        let ghost e0 = self.errors();
        let n = lhs.dims.len();
        let mut i: usize = 0;
        while i < n
            invariant
                i <= n,
                n == lhs.dims@.len(),
                lhs.dims@.len() == rhs.dims@.len(),
                check.wf(),
                e0 == self.errors(),
                check.errors().len() >= e0.len(),
                check.errors().subrange(0, e0.len() as int) == e0,
                check.reports() == d0 + broadcast_failures(lhs.dims@, rhs.dims@, i as int),
                check.ops_name() == if broadcast_failures(lhs.dims@, rhs.dims@, i as int).len() > 0 {
                    ops@
                } else {
                    self.ops_name()
                },
                (check is Passed) == (self is Passed && broadcast_failures(
                    lhs.dims@,
                    rhs.dims@,
                    i as int,
                ).len() == 0),
            decreases n - i,
        {
            let d_lhs = lhs.dims[i];
            let d_rhs = rhs.dims[i];
            if d_lhs != d_rhs && d_lhs != 1 && d_rhs != 1 {
                let mut details = String::from_str("Incompatible size at dimension '");
                push_decimal(&mut details, i);
                details.append("' => '");
                push_decimal(&mut details, d_lhs);
                details.append(" != ");
                push_decimal(&mut details, d_rhs);
                details.append("', which can't be broadcasted. Lhs tensor shape ");
                push_dims(&mut details, &lhs.dims);
                details.append(", Rhs tensor shape ");
                push_dims(&mut details, &rhs.dims);
                details.append(".");
                let ghost prev = check.errors();
                check = check.register_with(ops, INCOMPATIBLE_SHAPES, details);
                assert(check.errors().subrange(0, e0.len() as int) =~= prev.subrange(
                    0,
                    e0.len() as int,
                ));
            }
            assert(check.reports() =~= d0 + broadcast_failures(lhs.dims@, rhs.dims@, i + 1));
            i = i + 1;
        }
        proof {
            lemma_broadcast_failures_empty(lhs.dims@, rhs.dims@, n as int);
        }
        check
    }

    /// Adds a violation when the two devices differ; violations already found are kept.
    pub fn binary_ops_device(self, ops: &str, lhs: &Device, rhs: &Device) -> (r: Self)
        requires
            self.wf(),
        ensures
            r.wf(),
            r.errors().len() >= self.errors().len(),
            r.errors().subrange(0, self.errors().len() as int) == self.errors(),
            r.reports() == self.reports() + one_if(
                lhs != rhs,
                found(DEVICE_MISMATCH@, device_details(*lhs, *rhs)),
            ),
            r is Passed <==> (self is Passed && lhs == rhs),
            r.ops_name() == if lhs != rhs {
                ops@
            } else {
                self.ops_name()
            },
    {
        if *lhs != *rhs {
            let mut details = String::from_str("Lhs tensor device ");
            push_device(&mut details, lhs);
            details.append(", Rhs tensor device ");
            push_device(&mut details, rhs);
            details.append(".");
            let r = self.register_with(ops, DEVICE_MISMATCH, details);
            assert(r.reports() =~= self.reports() + seq![
                found(DEVICE_MISMATCH@, device_details(*lhs, *rhs)),
            ]);
            r
        } else {
            let ghost d = self.reports();
            assert(d + seq![] =~= d);
            assert(self.errors().subrange(0, self.errors().len() as int) =~= self.errors());
            self
        }
    }
}

/// The details naming the size of the index tensor and the number of ranges.
fn rank_details(rank: usize, n: usize) -> (r: String)
    ensures
        r@ == index_rank_details(rank as nat, n as nat),
{
    let mut details = String::from_str(
        "The indexes array must be smaller or equal to the tensor number of dimensions. Tensor number of dimensions: ",
    );
    push_decimal(&mut details, rank);
    details.append(", indexes array length ");
    push_decimal(&mut details, n);
    details.append(".");
    details
}

fn exceeds_text(range: &Range<usize>, size: usize, i: usize, context: &String) -> (r: String)
    ensures
        r@ == exceeds_details(*range, size as nat, i as nat, context@),
{
    let mut details = String::from_str("The range (");
    push_decimal(&mut details, range.start);
    details.append("..");
    push_decimal(&mut details, range.end);
    details.append(") exceeds the size of the tensor (");
    push_decimal(&mut details, size);
    details.append(") at dimension ");
    push_decimal(&mut details, i);
    details.append(". ");
    details.append(context.as_str());
    details
}

fn empty_text(range: &Range<usize>, i: usize, context: &String) -> (r: String)
    ensures
        r@ == empty_details(*range, i as nat, context@),
{
    let mut details = String::from_str("The range at dimension '");
    push_decimal(&mut details, i);
    details.append("' starts at '");
    push_decimal(&mut details, range.start);
    details.append("' and is greater or equal to its end '");
    push_decimal(&mut details, range.end);
    details.append("'. ");
    details.append(context.as_str());
    details
}

fn value_text(range: &Range<usize>, size: usize, i: usize, context: &String) -> (r: String)
    ensures
        r@ == value_details(*range, size as nat, i as nat, context@),
{
    let mut details = String::from_str("The range (");
    push_decimal(&mut details, range.start);
    details.append("..");
    push_decimal(&mut details, range.end);
    details.append(") doesn't match the number of elements of the value tensor (");
    push_decimal(&mut details, size);
    details.append(") at dimension ");
    push_decimal(&mut details, i);
    details.append(". ");
    details.append(context.as_str());
    details
}

/// Whether `a` and `b` agree on every axis except `dim`.
fn same_dims_except(a: &Vec<usize>, b: &Vec<usize>, dim: usize) -> (r: bool)
    ensures
        r == same_except(a@, b@, dim as int),
{
    if a.len() != b.len() {
        proof {
            if same_except(a@, b@, dim as int) {
                assert(without_axis(a@, dim as int).len() == without_axis(b@, dim as int).len());
            }
        }
        return false;
    }
    let mut i: usize = 0;
    while i < a.len()
        invariant
            i <= a@.len(),
            a@.len() == b@.len(),
            forall|k: int| 0 <= k < i ==> #[trigger] without_axis(a@, dim as int)[k] == without_axis(
                b@,
                dim as int,
            )[k],
        decreases a@.len() - i,
    {
        if i != dim && a[i] != b[i] {
            assert(without_axis(a@, dim as int)[i as int] != without_axis(b@, dim as int)[i as int]);
            return false;
        }
        i = i + 1;
    }
    assert(without_axis(a@, dim as int) =~= without_axis(b@, dim as int));
    true
}

/// The details listing the axis and every shape of a concatenation.
fn cat_details(shapes: &Vec<Shape>, dim: usize) -> (r: String)
    ensures
        r@ == cat_shapes_details(shapes@, dim as nat),
{
    let mut details = String::from_str("Provided dimension (");
    push_decimal(&mut details, dim);
    details.append("), tensors shapes: ");
    let ghost start = details@;
    let mut k: usize = 0;
    while k < shapes.len()
        invariant
            k <= shapes@.len(),
            details@ == start + shapes_list(shapes@, k as int),
        decreases shapes@.len() - k,
    {
        if k > 0 {
            details.append(", ");
        }
        push_dims(&mut details, &shapes[k].dims);
        proof {
            if k > 0 {
                assert(details@ =~= start + (shapes_list(shapes@, k as int) + ", "@ + dims_text(
                    shapes@[k as int].dims@,
                )));
            } else {
                assert(details@ =~= start + dims_text(shapes@[0].dims@));
            }
        }
        k = k + 1;
    }
    details
}

/// Appends the name of `device` to `s`.
fn push_device(s: &mut String, device: &Device)
    ensures
        final(s)@ == old(s)@ + device_text(*device),
{
    match device {
        Device::Cpu => s.append("Cpu"),
        Device::Unit(n) => {
            s.append("Unit(");
            push_decimal(s, *n);
            s.append(")");
        },
    }
}

proof fn lemma_broadcast_failures_empty(lhs: Seq<usize>, rhs: Seq<usize>, n: int)
    requires
        0 <= n <= lhs.len(),
        lhs.len() == rhs.len(),
    ensures
        broadcast_failures(lhs, rhs, n).len() == 0 <==> forall|i: int|
            0 <= i < n ==> broadcastable(#[trigger] lhs[i], rhs[i]),
    decreases n,
{
    if n > 0 {
        lemma_broadcast_failures_empty(lhs, rhs, n - 1);
    }
}

proof fn lemma_index_failures_empty(dims: Seq<usize>, ranges: Seq<Range<usize>>, n: int)
    requires
        0 <= n <= dims.len(),
        n <= ranges.len(),
    ensures
        index_failures(dims, ranges, n).len() == 0 <==> forall|i: int|
            0 <= i < n ==> (#[trigger] ranges[i]).start < ranges[i].end && ranges[i].end
                <= dims[i],
    decreases n,
{
    if n > 0 {
        lemma_index_failures_empty(dims, ranges, n - 1);
    }
}

proof fn lemma_index_assign_failures_empty(
    dims: Seq<usize>,
    value_dims: Seq<usize>,
    ranges: Seq<Range<usize>>,
    n: int,
)
    requires
        0 <= n <= dims.len(),
        n <= ranges.len(),
        dims.len() == value_dims.len(),
    ensures
        index_assign_failures(dims, value_dims, ranges, n).len() == 0 <==> forall|i: int|
            0 <= i < n ==> (#[trigger] ranges[i]).start < ranges[i].end && ranges[i].end
                <= dims[i] && ranges[i].end - ranges[i].start == value_dims[i],
    decreases n,
{
    if n > 0 {
        lemma_index_assign_failures_empty(dims, value_dims, ranges, n - 1);
    }
}

} // verus!
