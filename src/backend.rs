//! The operation contract that every backend supplies, one trait per element
//! family, with the CPU backend and the forwarding decorator as implementations.

use core::ops::Range;
use vstd::prelude::*;

use crate::compare::{compared, compared_scalar, CmpOp};
use crate::contract::{
    added_along, arg_maxed, arg_mined, assigned, averaged, averaged_along, concatenated,
    filled_with, gathered, gathered_along, holds_view, mask_filled, mask_scattered, scatter_added, selected_along,
    sliced, summed, summed_along,
};
use crate::math::{
    broadcast_dims, broadcast_result, compatible, no_zero, scalar_result, BinaryOp, NdArrayMathOps,
};
use crate::reduce::{gather_along_ok, gather_ok, indexes_below, reduced_dims};
use crate::shape::{product, swap_axes, unravel, Device, Shape};
use crate::tensor::{
    cat_dims, cat_ok, cat_offset, flipped, full, is_permutation, permuted_dims, sliced_dims,
    unpermuted, valid_ranges, Data, NdArrayOps, NdArrayTensor,
};

verus! {

/// Operations on 64-bit integer tensors. Every backend meets the same contract.
pub trait IntTensorOps {
    fn int_from_data(data: Data<i64>) -> (r: NdArrayTensor<i64>)
        requires
            data.wf(),
        ensures
            holds_view(r, data.shape.dims@, data.value@),
    ;

    fn int_into_data(tensor: NdArrayTensor<i64>) -> (r: Data<i64>)
        requires
            tensor.wf(),
        ensures
            r.wf(),
            r.shape.dims@ == tensor.dims(),
            r.value@ == tensor.values(),
    ;

    fn int_to_data(tensor: &NdArrayTensor<i64>) -> (r: Data<i64>)
        requires
            tensor.wf(),
        ensures
            r.wf(),
            r.shape.dims@ == tensor.dims(),
            r.value@ == tensor.values(),
    ;

    fn int_shape(tensor: &NdArrayTensor<i64>) -> (r: Shape)
        ensures
            r.dims@ == tensor.dims(),
    ;

    fn int_device(tensor: &NdArrayTensor<i64>) -> (r: Device)
        ensures
            r == Device::Cpu,
    ;

    fn int_to_device(tensor: NdArrayTensor<i64>, device: &Device) -> (r: NdArrayTensor<i64>)
        requires
            tensor.wf(),
            *device == Device::Cpu,
        ensures
            holds_view(r, tensor.dims(), tensor.values()),
    ;

    fn int_empty(shape: Shape) -> (r: NdArrayTensor<i64>)
        requires
            shape.wf(),
        ensures
            filled_with(r, shape.dims@, 0i64),
    ;

    fn int_zeros(shape: Shape) -> (r: NdArrayTensor<i64>)
        requires
            shape.wf(),
        ensures
            filled_with(r, shape.dims@, 0i64),
    ;

    fn int_ones(shape: Shape) -> (r: NdArrayTensor<i64>)
        requires
            shape.wf(),
        ensures
            filled_with(r, shape.dims@, 1i64),
    ;

    fn int_reshape(tensor: NdArrayTensor<i64>, shape: Shape) -> (r: NdArrayTensor<i64>)
        requires
            tensor.wf(),
            shape.wf(),
            product(shape.dims@) == product(tensor.dims()),
        ensures
            holds_view(r, shape.dims@, tensor.values()),
    ;

    fn int_index(
        tensor: NdArrayTensor<i64>,
        indexes: Vec<Range<usize>>,
    ) -> (r: NdArrayTensor<i64>)
        requires
            tensor.wf(),
            valid_ranges(tensor.dims(), indexes@),
        ensures
            sliced(tensor, indexes@, r),
    ;

    fn int_index_assign(
        tensor: NdArrayTensor<i64>,
        indexes: Vec<Range<usize>>,
        value: NdArrayTensor<i64>,
    ) -> (r: NdArrayTensor<i64>)
        requires
            tensor.wf(),
            value.wf(),
            valid_ranges(tensor.dims(), indexes@),
            value.dims() == sliced_dims(tensor.dims(), indexes@),
        ensures
            assigned(tensor, indexes@, value, r),
    ;

    fn int_cat(tensors: Vec<NdArrayTensor<i64>>, dim: usize) -> (r: NdArrayTensor<i64>)
        requires
            cat_ok(tensors@, dim as int),
            cat_offset(tensors@, dim as int, tensors@.len() as int) <= usize::MAX,
            product(cat_dims(tensors@, dim as int)) <= usize::MAX,
        ensures
            concatenated(tensors@, dim as int, r),
    ;

    fn int_mask_scatter(
        tensor: NdArrayTensor<i64>,
        mask: NdArrayTensor<bool>,
        source: NdArrayTensor<i64>,
    ) -> (r: NdArrayTensor<i64>)
        requires
            tensor.wf(),
            mask.wf(),
            source.wf(),
            mask.dims() == tensor.dims(),
            source.dims() == tensor.dims(),
        ensures
            mask_scattered(tensor, mask, source, r),
    ;

    fn int_mask_fill(
        tensor: NdArrayTensor<i64>,
        mask: NdArrayTensor<bool>,
        value: i64,
    ) -> (r: NdArrayTensor<i64>)
        requires
            tensor.wf(),
            mask.wf(),
            mask.dims() == tensor.dims(),
        ensures
            mask_filled(tensor, mask, value, r),
    ;

    fn int_index_select(
        tensor: NdArrayTensor<i64>,
        indexes: NdArrayTensor<i64>,
    ) -> (r: NdArrayTensor<i64>)
        requires
            tensor.wf(),
            indexes.wf(),
            gather_ok(tensor.dims(), indexes.dims(), indexes.values()),
        ensures
            gathered(tensor, indexes, r),
    ;

    fn int_gather(
        tensor: NdArrayTensor<i64>,
        dim: usize,
        indexes: NdArrayTensor<i64>,
    ) -> (r: NdArrayTensor<i64>)
        requires
            tensor.wf(),
            indexes.wf(),
            gather_along_ok(tensor.dims(), indexes.dims(), indexes.values(), dim as int),
        ensures
            gathered_along(tensor, dim as int, indexes, r),
    ;

    fn int_index_select_assign(
        tensor: NdArrayTensor<i64>,
        indexes: NdArrayTensor<i64>,
        value: NdArrayTensor<i64>,
    ) -> (r: NdArrayTensor<i64>)
        requires
            tensor.wf(),
            indexes.wf(),
            value.wf(),
            gather_ok(tensor.dims(), indexes.dims(), indexes.values()),
            value.dims() == indexes.dims(),
        ensures
            scatter_added(tensor, indexes, value, r),
    ;

    fn int_index_select_dim(
        tensor: NdArrayTensor<i64>,
        dim: usize,
        indexes: NdArrayTensor<i64>,
    ) -> (r: NdArrayTensor<i64>)
        requires
            tensor.wf(),
            indexes.wf(),
            dim < tensor.dims().len(),
            indexes.dims().len() == 1,
            indexes_below(indexes.values(), tensor.dims()[dim as int] as int),
            product(tensor.dims().update(dim as int, indexes.values().len() as usize))
                <= usize::MAX,
        ensures
            selected_along(tensor, dim as int, indexes, r),
    ;

    fn int_index_select_dim_assign(
        tensor: NdArrayTensor<i64>,
        dim: usize,
        indexes: NdArrayTensor<i64>,
        value: NdArrayTensor<i64>,
    ) -> (r: NdArrayTensor<i64>)
        requires
            tensor.wf(),
            indexes.wf(),
            value.wf(),
            dim < tensor.dims().len(),
            indexes.dims().len() == 1,
            indexes_below(indexes.values(), tensor.dims()[dim as int] as int),
            value.dims() == tensor.dims().update(dim as int, indexes.values().len() as usize),
        ensures
            added_along(tensor, dim as int, indexes, value, r),
    ;

    fn int_equal(lhs: NdArrayTensor<i64>, rhs: NdArrayTensor<i64>) -> (r: NdArrayTensor<bool>)
        requires
            lhs.wf(),
            rhs.wf(),
            compatible(lhs.dims(), rhs.dims()),
            product(broadcast_dims(lhs.dims(), rhs.dims())) <= usize::MAX,
        ensures
            compared(CmpOp::Equal, lhs, rhs, r),
    ;

    fn int_equal_elem(lhs: NdArrayTensor<i64>, rhs: i64) -> (r: NdArrayTensor<bool>)
        requires
            lhs.wf(),
        ensures
            compared_scalar(CmpOp::Equal, lhs, rhs, r),
    ;

    fn int_greater(lhs: NdArrayTensor<i64>, rhs: NdArrayTensor<i64>) -> (r: NdArrayTensor<bool>)
        requires
            lhs.wf(),
            rhs.wf(),
            compatible(lhs.dims(), rhs.dims()),
            product(broadcast_dims(lhs.dims(), rhs.dims())) <= usize::MAX,
        ensures
            compared(CmpOp::Greater, lhs, rhs, r),
    ;

    fn int_greater_elem(lhs: NdArrayTensor<i64>, rhs: i64) -> (r: NdArrayTensor<bool>)
        requires
            lhs.wf(),
        ensures
            compared_scalar(CmpOp::Greater, lhs, rhs, r),
    ;

    fn int_greater_equal(
        lhs: NdArrayTensor<i64>,
        rhs: NdArrayTensor<i64>,
    ) -> (r: NdArrayTensor<bool>)
        requires
            lhs.wf(),
            rhs.wf(),
            compatible(lhs.dims(), rhs.dims()),
            product(broadcast_dims(lhs.dims(), rhs.dims())) <= usize::MAX,
        ensures
            compared(CmpOp::GreaterEqual, lhs, rhs, r),
    ;

    fn int_greater_equal_elem(lhs: NdArrayTensor<i64>, rhs: i64) -> (r: NdArrayTensor<bool>)
        requires
            lhs.wf(),
        ensures
            compared_scalar(CmpOp::GreaterEqual, lhs, rhs, r),
    ;

    fn int_lower(lhs: NdArrayTensor<i64>, rhs: NdArrayTensor<i64>) -> (r: NdArrayTensor<bool>)
        requires
            lhs.wf(),
            rhs.wf(),
            compatible(lhs.dims(), rhs.dims()),
            product(broadcast_dims(lhs.dims(), rhs.dims())) <= usize::MAX,
        ensures
            compared(CmpOp::Lower, lhs, rhs, r),
    ;

    fn int_lower_elem(lhs: NdArrayTensor<i64>, rhs: i64) -> (r: NdArrayTensor<bool>)
        requires
            lhs.wf(),
        ensures
            compared_scalar(CmpOp::Lower, lhs, rhs, r),
    ;

    fn int_lower_equal(
        lhs: NdArrayTensor<i64>,
        rhs: NdArrayTensor<i64>,
    ) -> (r: NdArrayTensor<bool>)
        requires
            lhs.wf(),
            rhs.wf(),
            compatible(lhs.dims(), rhs.dims()),
            product(broadcast_dims(lhs.dims(), rhs.dims())) <= usize::MAX,
        ensures
            compared(CmpOp::LowerEqual, lhs, rhs, r),
    ;

    fn int_lower_equal_elem(lhs: NdArrayTensor<i64>, rhs: i64) -> (r: NdArrayTensor<bool>)
        requires
            lhs.wf(),
        ensures
            compared_scalar(CmpOp::LowerEqual, lhs, rhs, r),
    ;

    fn int_add(lhs: NdArrayTensor<i64>, rhs: NdArrayTensor<i64>) -> (r: NdArrayTensor<i64>)
        requires
            lhs.wf(),
            rhs.wf(),
            compatible(lhs.dims(), rhs.dims()),
            product(broadcast_dims(lhs.dims(), rhs.dims())) <= usize::MAX,
        ensures
            broadcast_result(BinaryOp::Add, lhs, rhs, r),
    ;

    fn int_add_scalar(lhs: NdArrayTensor<i64>, rhs: i64) -> (r: NdArrayTensor<i64>)
        requires
            lhs.wf(),
        ensures
            scalar_result(BinaryOp::Add, lhs, rhs, r),
    ;

    fn int_sub(lhs: NdArrayTensor<i64>, rhs: NdArrayTensor<i64>) -> (r: NdArrayTensor<i64>)
        requires
            lhs.wf(),
            rhs.wf(),
            compatible(lhs.dims(), rhs.dims()),
            product(broadcast_dims(lhs.dims(), rhs.dims())) <= usize::MAX,
        ensures
            broadcast_result(BinaryOp::Sub, lhs, rhs, r),
    ;

    fn int_sub_scalar(lhs: NdArrayTensor<i64>, rhs: i64) -> (r: NdArrayTensor<i64>)
        requires
            lhs.wf(),
        ensures
            scalar_result(BinaryOp::Sub, lhs, rhs, r),
    ;

    fn int_mul(lhs: NdArrayTensor<i64>, rhs: NdArrayTensor<i64>) -> (r: NdArrayTensor<i64>)
        requires
            lhs.wf(),
            rhs.wf(),
            compatible(lhs.dims(), rhs.dims()),
            product(broadcast_dims(lhs.dims(), rhs.dims())) <= usize::MAX,
        ensures
            broadcast_result(BinaryOp::Mul, lhs, rhs, r),
    ;

    fn int_mul_scalar(lhs: NdArrayTensor<i64>, rhs: i64) -> (r: NdArrayTensor<i64>)
        requires
            lhs.wf(),
        ensures
            scalar_result(BinaryOp::Mul, lhs, rhs, r),
    ;

    fn int_div(lhs: NdArrayTensor<i64>, rhs: NdArrayTensor<i64>) -> (r: NdArrayTensor<i64>)
        requires
            lhs.wf(),
            rhs.wf(),
            compatible(lhs.dims(), rhs.dims()),
            product(broadcast_dims(lhs.dims(), rhs.dims())) <= usize::MAX,
            no_zero(rhs),
        ensures
            broadcast_result(BinaryOp::Div, lhs, rhs, r),
    ;

    fn int_div_scalar(lhs: NdArrayTensor<i64>, rhs: i64) -> (r: NdArrayTensor<i64>)
        requires
            lhs.wf(),
            rhs != 0,
        ensures
            scalar_result(BinaryOp::Div, lhs, rhs, r),
    ;

    fn int_neg(tensor: NdArrayTensor<i64>) -> (r: NdArrayTensor<i64>)
        requires
            tensor.wf(),
        ensures
            scalar_result(BinaryOp::Mul, tensor, -1i64, r),
    ;

    fn int_sum(tensor: NdArrayTensor<i64>) -> (r: NdArrayTensor<i64>)
        requires
            tensor.wf(),
        ensures
            summed(tensor, r),
    ;

    fn int_sum_dim(tensor: NdArrayTensor<i64>, dim: usize) -> (r: NdArrayTensor<i64>)
        requires
            tensor.wf(),
            dim < tensor.dims().len(),
            product(reduced_dims(tensor.dims(), dim as int)) <= usize::MAX,
        ensures
            summed_along(tensor, dim as int, r),
    ;

    fn int_mean(tensor: NdArrayTensor<i64>) -> (r: NdArrayTensor<i64>)
        requires
            tensor.wf(),
            0 < tensor.values().len() <= i64::MAX,
        ensures
            averaged(tensor, r),
    ;

    fn int_mean_dim(tensor: NdArrayTensor<i64>, dim: usize) -> (r: NdArrayTensor<i64>)
        requires
            tensor.wf(),
            dim < tensor.dims().len(),
            0 < tensor.dims()[dim as int] <= i64::MAX,
        ensures
            averaged_along(tensor, dim as int, r),
    ;

    fn int_argmax(tensor: NdArrayTensor<i64>, dim: usize) -> (r: NdArrayTensor<i64>)
        requires
            tensor.wf(),
            dim < tensor.dims().len(),
            0 < tensor.dims()[dim as int] <= i64::MAX,
        ensures
            arg_maxed(tensor, dim as int, r),
    ;

    fn int_argmin(tensor: NdArrayTensor<i64>, dim: usize) -> (r: NdArrayTensor<i64>)
        requires
            tensor.wf(),
            dim < tensor.dims().len(),
            0 < tensor.dims()[dim as int] <= i64::MAX,
        ensures
            arg_mined(tensor, dim as int, r),
    ;

    fn int_swap_dims(
        tensor: NdArrayTensor<i64>,
        dim1: usize,
        dim2: usize,
    ) -> (r: NdArrayTensor<i64>)
        requires
            tensor.wf(),
            dim1 < tensor.dims().len(),
            dim2 < tensor.dims().len(),
        ensures
            r.wf(),
            r.dims() == swap_axes(tensor.dims(), dim1 as int, dim2 as int),
            forall|j: int|
                0 <= j < r.values().len() ==>
                    #[trigger] r.values()[j] == tensor.at(
                        swap_axes(unravel(r.dims(), j), dim1 as int, dim2 as int),
                    ),
    ;

    fn int_flip(tensor: NdArrayTensor<i64>, axes: Vec<usize>) -> (r: NdArrayTensor<i64>)
        requires
            tensor.wf(),
            forall|k: int| 0 <= k < axes@.len() ==> #[trigger] axes@[k] < tensor.dims().len(),
        ensures
            r.wf(),
            r.dims() == tensor.dims(),
            forall|j: int|
                0 <= j < r.values().len() ==>
                    #[trigger] r.values()[j] == tensor.at(
                        flipped(unravel(tensor.dims(), j), tensor.dims(), axes@),
                    ),
    ;

    fn int_permute(tensor: NdArrayTensor<i64>, dims: Vec<usize>) -> (r: NdArrayTensor<i64>)
        requires
            tensor.wf(),
            is_permutation(dims@, tensor.dims().len() as int),
            product(permuted_dims(tensor.dims(), dims@)) <= usize::MAX,
        ensures
            r.wf(),
            r.dims() == permuted_dims(tensor.dims(), dims@),
            forall|j: int|
                0 <= j < r.values().len() ==>
                    #[trigger] r.values()[j] == tensor.at(unpermuted(unravel(r.dims(), j), dims@)),
    ;
}

/// Operations on boolean tensors. Every backend meets the same contract.
pub trait BoolTensorOps {
    fn bool_from_data(data: Data<bool>) -> (r: NdArrayTensor<bool>)
        requires
            data.wf(),
        ensures
            holds_view(r, data.shape.dims@, data.value@),
    ;

    fn bool_into_data(tensor: NdArrayTensor<bool>) -> (r: Data<bool>)
        requires
            tensor.wf(),
        ensures
            r.wf(),
            r.shape.dims@ == tensor.dims(),
            r.value@ == tensor.values(),
    ;

    fn bool_to_data(tensor: &NdArrayTensor<bool>) -> (r: Data<bool>)
        requires
            tensor.wf(),
        ensures
            r.wf(),
            r.shape.dims@ == tensor.dims(),
            r.value@ == tensor.values(),
    ;

    fn bool_shape(tensor: &NdArrayTensor<bool>) -> (r: Shape)
        ensures
            r.dims@ == tensor.dims(),
    ;

    fn bool_device(tensor: &NdArrayTensor<bool>) -> (r: Device)
        ensures
            r == Device::Cpu,
    ;

    fn bool_to_device(tensor: NdArrayTensor<bool>, device: &Device) -> (r: NdArrayTensor<bool>)
        requires
            tensor.wf(),
            *device == Device::Cpu,
        ensures
            holds_view(r, tensor.dims(), tensor.values()),
    ;

    fn bool_empty(shape: Shape) -> (r: NdArrayTensor<bool>)
        requires
            shape.wf(),
        ensures
            filled_with(r, shape.dims@, false),
    ;

    fn bool_reshape(tensor: NdArrayTensor<bool>, shape: Shape) -> (r: NdArrayTensor<bool>)
        requires
            tensor.wf(),
            shape.wf(),
            product(shape.dims@) == product(tensor.dims()),
        ensures
            holds_view(r, shape.dims@, tensor.values()),
    ;

    fn bool_index(
        tensor: NdArrayTensor<bool>,
        indexes: Vec<Range<usize>>,
    ) -> (r: NdArrayTensor<bool>)
        requires
            tensor.wf(),
            valid_ranges(tensor.dims(), indexes@),
        ensures
            sliced(tensor, indexes@, r),
    ;

    fn bool_index_assign(
        tensor: NdArrayTensor<bool>,
        indexes: Vec<Range<usize>>,
        value: NdArrayTensor<bool>,
    ) -> (r: NdArrayTensor<bool>)
        requires
            tensor.wf(),
            value.wf(),
            valid_ranges(tensor.dims(), indexes@),
            value.dims() == sliced_dims(tensor.dims(), indexes@),
        ensures
            assigned(tensor, indexes@, value, r),
    ;

    fn bool_cat(tensors: Vec<NdArrayTensor<bool>>, dim: usize) -> (r: NdArrayTensor<bool>)
        requires
            cat_ok(tensors@, dim as int),
            cat_offset(tensors@, dim as int, tensors@.len() as int) <= usize::MAX,
            product(cat_dims(tensors@, dim as int)) <= usize::MAX,
        ensures
            concatenated(tensors@, dim as int, r),
    ;

    fn bool_flip(tensor: NdArrayTensor<bool>, axes: Vec<usize>) -> (r: NdArrayTensor<bool>)
        requires
            tensor.wf(),
            forall|k: int| 0 <= k < axes@.len() ==> #[trigger] axes@[k] < tensor.dims().len(),
        ensures
            r.wf(),
            r.dims() == tensor.dims(),
            forall|j: int|
                0 <= j < r.values().len() ==>
                    #[trigger] r.values()[j] == tensor.at(
                        flipped(unravel(tensor.dims(), j), tensor.dims(), axes@),
                    ),
    ;

    fn bool_permute(tensor: NdArrayTensor<bool>, dims: Vec<usize>) -> (r: NdArrayTensor<bool>)
        requires
            tensor.wf(),
            is_permutation(dims@, tensor.dims().len() as int),
            product(permuted_dims(tensor.dims(), dims@)) <= usize::MAX,
        ensures
            r.wf(),
            r.dims() == permuted_dims(tensor.dims(), dims@),
            forall|j: int|
                0 <= j < r.values().len() ==>
                    #[trigger] r.values()[j] == tensor.at(unpermuted(unravel(r.dims(), j), dims@)),
    ;

    fn bool_equal(lhs: NdArrayTensor<bool>, rhs: NdArrayTensor<bool>) -> (r: NdArrayTensor<bool>)
        requires
            lhs.wf(),
            rhs.wf(),
            lhs.dims() == rhs.dims(),
        ensures
            r.wf(),
            r.dims() == lhs.dims(),
            forall|j: int|
                0 <= j < r.values().len() ==>
                    #[trigger] r.values()[j] == (lhs.values()[j] == rhs.values()[j]),
    ;

    fn bool_equal_elem(lhs: NdArrayTensor<bool>, rhs: bool) -> (r: NdArrayTensor<bool>)
        requires
            lhs.wf(),
        ensures
            r.wf(),
            r.dims() == lhs.dims(),
            forall|j: int|
                0 <= j < r.values().len() ==> #[trigger] r.values()[j] == (lhs.values()[j] == rhs),
    ;

    fn bool_into_int(tensor: NdArrayTensor<bool>) -> (r: NdArrayTensor<i64>)
        requires
            tensor.wf(),
        ensures
            r.wf(),
            r.dims() == tensor.dims(),
            forall|j: int|
                0 <= j < r.values().len() ==>
                    #[trigger] r.values()[j] == if tensor.values()[j] { 1i64 } else { 0i64 },
    ;
}

/// The CPU backend: dense tensors in host memory.
pub struct NdArrayBackend;

impl IntTensorOps for NdArrayBackend {
    fn int_from_data(data: Data<i64>) -> (r: NdArrayTensor<i64>) {
        NdArrayTensor::from_data(data)
    }

    fn int_into_data(tensor: NdArrayTensor<i64>) -> (r: Data<i64>) {
        tensor.into_data()
    }

    fn int_to_data(tensor: &NdArrayTensor<i64>) -> (r: Data<i64>) {
        tensor.to_data()
    }

    fn int_shape(tensor: &NdArrayTensor<i64>) -> (r: Shape) {
        tensor.shape()
    }

    fn int_device(tensor: &NdArrayTensor<i64>) -> (r: Device) {
        tensor.device()
    }

    fn int_to_device(tensor: NdArrayTensor<i64>, device: &Device) -> (r: NdArrayTensor<i64>) {
        tensor
    }

    fn int_empty(shape: Shape) -> (r: NdArrayTensor<i64>) {
        full(shape, 0)
    }

    fn int_zeros(shape: Shape) -> (r: NdArrayTensor<i64>) {
        full(shape, 0)
    }

    fn int_ones(shape: Shape) -> (r: NdArrayTensor<i64>) {
        full(shape, 1)
    }

    fn int_reshape(tensor: NdArrayTensor<i64>, shape: Shape) -> (r: NdArrayTensor<i64>) {
        NdArrayOps::reshape(tensor, shape)
    }

    fn int_index(
        tensor: NdArrayTensor<i64>,
        indexes: Vec<Range<usize>>,
    ) -> (r: NdArrayTensor<i64>) {
        NdArrayOps::index(tensor, indexes)
    }

    fn int_index_assign(
        tensor: NdArrayTensor<i64>,
        indexes: Vec<Range<usize>>,
        value: NdArrayTensor<i64>,
    ) -> (r: NdArrayTensor<i64>) {
        NdArrayOps::index_assign(tensor, indexes, value)
    }

    fn int_cat(tensors: Vec<NdArrayTensor<i64>>, dim: usize) -> (r: NdArrayTensor<i64>) {
        NdArrayOps::cat(tensors, dim)
    }

    fn int_mask_scatter(
        tensor: NdArrayTensor<i64>,
        mask: NdArrayTensor<bool>,
        source: NdArrayTensor<i64>,
    ) -> (r: NdArrayTensor<i64>) {
        NdArrayMathOps::mask_scatter(tensor, mask, source)
    }

    fn int_mask_fill(
        tensor: NdArrayTensor<i64>,
        mask: NdArrayTensor<bool>,
        value: i64,
    ) -> (r: NdArrayTensor<i64>) {
        NdArrayMathOps::mask_fill(tensor, mask, value)
    }

    fn int_index_select(
        tensor: NdArrayTensor<i64>,
        indexes: NdArrayTensor<i64>,
    ) -> (r: NdArrayTensor<i64>) {
        NdArrayMathOps::index_select(tensor, indexes)
    }

    fn int_gather(
        tensor: NdArrayTensor<i64>,
        dim: usize,
        indexes: NdArrayTensor<i64>,
    ) -> (r: NdArrayTensor<i64>) {
        NdArrayMathOps::gather(tensor, dim, indexes)
    }

    fn int_index_select_assign(
        tensor: NdArrayTensor<i64>,
        indexes: NdArrayTensor<i64>,
        value: NdArrayTensor<i64>,
    ) -> (r: NdArrayTensor<i64>) {
        NdArrayMathOps::index_select_assign(tensor, indexes, value)
    }

    fn int_index_select_dim(
        tensor: NdArrayTensor<i64>,
        dim: usize,
        indexes: NdArrayTensor<i64>,
    ) -> (r: NdArrayTensor<i64>) {
        NdArrayMathOps::index_select_dim(tensor, dim, indexes)
    }

    fn int_index_select_dim_assign(
        tensor: NdArrayTensor<i64>,
        dim: usize,
        indexes: NdArrayTensor<i64>,
        value: NdArrayTensor<i64>,
    ) -> (r: NdArrayTensor<i64>) {
        NdArrayMathOps::index_select_dim_assign(tensor, dim, indexes, value)
    }

    fn int_equal(lhs: NdArrayTensor<i64>, rhs: NdArrayTensor<i64>) -> (r: NdArrayTensor<bool>) {
        NdArrayMathOps::compare(&lhs, &rhs, CmpOp::Equal)
    }

    fn int_equal_elem(lhs: NdArrayTensor<i64>, rhs: i64) -> (r: NdArrayTensor<bool>) {
        NdArrayMathOps::compare_elem(&lhs, rhs, CmpOp::Equal)
    }

    fn int_greater(lhs: NdArrayTensor<i64>, rhs: NdArrayTensor<i64>) -> (r: NdArrayTensor<bool>) {
        NdArrayMathOps::compare(&lhs, &rhs, CmpOp::Greater)
    }

    fn int_greater_elem(lhs: NdArrayTensor<i64>, rhs: i64) -> (r: NdArrayTensor<bool>) {
        NdArrayMathOps::compare_elem(&lhs, rhs, CmpOp::Greater)
    }

    fn int_greater_equal(
        lhs: NdArrayTensor<i64>,
        rhs: NdArrayTensor<i64>,
    ) -> (r: NdArrayTensor<bool>) {
        NdArrayMathOps::compare(&lhs, &rhs, CmpOp::GreaterEqual)
    }

    fn int_greater_equal_elem(lhs: NdArrayTensor<i64>, rhs: i64) -> (r: NdArrayTensor<bool>) {
        NdArrayMathOps::compare_elem(&lhs, rhs, CmpOp::GreaterEqual)
    }

    fn int_lower(lhs: NdArrayTensor<i64>, rhs: NdArrayTensor<i64>) -> (r: NdArrayTensor<bool>) {
        NdArrayMathOps::compare(&lhs, &rhs, CmpOp::Lower)
    }

    fn int_lower_elem(lhs: NdArrayTensor<i64>, rhs: i64) -> (r: NdArrayTensor<bool>) {
        NdArrayMathOps::compare_elem(&lhs, rhs, CmpOp::Lower)
    }

    fn int_lower_equal(
        lhs: NdArrayTensor<i64>,
        rhs: NdArrayTensor<i64>,
    ) -> (r: NdArrayTensor<bool>) {
        NdArrayMathOps::compare(&lhs, &rhs, CmpOp::LowerEqual)
    }

    fn int_lower_equal_elem(lhs: NdArrayTensor<i64>, rhs: i64) -> (r: NdArrayTensor<bool>) {
        NdArrayMathOps::compare_elem(&lhs, rhs, CmpOp::LowerEqual)
    }

    fn int_add(lhs: NdArrayTensor<i64>, rhs: NdArrayTensor<i64>) -> (r: NdArrayTensor<i64>) {
        NdArrayMathOps::add(lhs, rhs)
    }

    fn int_add_scalar(lhs: NdArrayTensor<i64>, rhs: i64) -> (r: NdArrayTensor<i64>) {
        NdArrayMathOps::add_scalar(lhs, rhs)
    }

    fn int_sub(lhs: NdArrayTensor<i64>, rhs: NdArrayTensor<i64>) -> (r: NdArrayTensor<i64>) {
        NdArrayMathOps::sub(lhs, rhs)
    }

    fn int_sub_scalar(lhs: NdArrayTensor<i64>, rhs: i64) -> (r: NdArrayTensor<i64>) {
        NdArrayMathOps::sub_scalar(lhs, rhs)
    }

    fn int_mul(lhs: NdArrayTensor<i64>, rhs: NdArrayTensor<i64>) -> (r: NdArrayTensor<i64>) {
        NdArrayMathOps::mul(lhs, rhs)
    }

    fn int_mul_scalar(lhs: NdArrayTensor<i64>, rhs: i64) -> (r: NdArrayTensor<i64>) {
        NdArrayMathOps::mul_scalar(lhs, rhs)
    }

    fn int_div(lhs: NdArrayTensor<i64>, rhs: NdArrayTensor<i64>) -> (r: NdArrayTensor<i64>) {
        NdArrayMathOps::div(lhs, rhs)
    }

    fn int_div_scalar(lhs: NdArrayTensor<i64>, rhs: i64) -> (r: NdArrayTensor<i64>) {
        NdArrayMathOps::div_scalar(lhs, rhs)
    }

    fn int_neg(tensor: NdArrayTensor<i64>) -> (r: NdArrayTensor<i64>) {
        NdArrayMathOps::mul_scalar(tensor, -1)
    }

    fn int_sum(tensor: NdArrayTensor<i64>) -> (r: NdArrayTensor<i64>) {
        NdArrayMathOps::sum(tensor)
    }

    fn int_sum_dim(tensor: NdArrayTensor<i64>, dim: usize) -> (r: NdArrayTensor<i64>) {
        NdArrayMathOps::sum_dim(tensor, dim)
    }

    fn int_mean(tensor: NdArrayTensor<i64>) -> (r: NdArrayTensor<i64>) {
        NdArrayMathOps::mean(tensor)
    }

    fn int_mean_dim(tensor: NdArrayTensor<i64>, dim: usize) -> (r: NdArrayTensor<i64>) {
        NdArrayMathOps::mean_dim(tensor, dim)
    }

    fn int_argmax(tensor: NdArrayTensor<i64>, dim: usize) -> (r: NdArrayTensor<i64>) {
        NdArrayMathOps::argmax(tensor, dim)
    }

    fn int_argmin(tensor: NdArrayTensor<i64>, dim: usize) -> (r: NdArrayTensor<i64>) {
        NdArrayMathOps::argmin(tensor, dim)
    }

    fn int_swap_dims(
        tensor: NdArrayTensor<i64>,
        dim1: usize,
        dim2: usize,
    ) -> (r: NdArrayTensor<i64>) {
        NdArrayOps::swap_dims(tensor, dim1, dim2)
    }

    fn int_flip(tensor: NdArrayTensor<i64>, axes: Vec<usize>) -> (r: NdArrayTensor<i64>) {
        NdArrayOps::flip(tensor, axes)
    }

    fn int_permute(tensor: NdArrayTensor<i64>, dims: Vec<usize>) -> (r: NdArrayTensor<i64>) {
        NdArrayOps::permute(tensor, dims)
    }
}

impl BoolTensorOps for NdArrayBackend {
    fn bool_from_data(data: Data<bool>) -> (r: NdArrayTensor<bool>) {
        NdArrayTensor::from_data(data)
    }

    fn bool_into_data(tensor: NdArrayTensor<bool>) -> (r: Data<bool>) {
        tensor.into_data()
    }

    fn bool_to_data(tensor: &NdArrayTensor<bool>) -> (r: Data<bool>) {
        tensor.to_data()
    }

    fn bool_shape(tensor: &NdArrayTensor<bool>) -> (r: Shape) {
        tensor.shape()
    }

    fn bool_device(tensor: &NdArrayTensor<bool>) -> (r: Device) {
        tensor.device()
    }

    fn bool_to_device(tensor: NdArrayTensor<bool>, device: &Device) -> (r: NdArrayTensor<bool>) {
        tensor
    }

    fn bool_empty(shape: Shape) -> (r: NdArrayTensor<bool>) {
        full(shape, false)
    }

    fn bool_reshape(tensor: NdArrayTensor<bool>, shape: Shape) -> (r: NdArrayTensor<bool>) {
        NdArrayOps::reshape(tensor, shape)
    }

    fn bool_index(
        tensor: NdArrayTensor<bool>,
        indexes: Vec<Range<usize>>,
    ) -> (r: NdArrayTensor<bool>) {
        NdArrayOps::index(tensor, indexes)
    }

    fn bool_index_assign(
        tensor: NdArrayTensor<bool>,
        indexes: Vec<Range<usize>>,
        value: NdArrayTensor<bool>,
    ) -> (r: NdArrayTensor<bool>) {
        NdArrayOps::index_assign(tensor, indexes, value)
    }

    fn bool_cat(tensors: Vec<NdArrayTensor<bool>>, dim: usize) -> (r: NdArrayTensor<bool>) {
        NdArrayOps::cat(tensors, dim)
    }

    fn bool_flip(tensor: NdArrayTensor<bool>, axes: Vec<usize>) -> (r: NdArrayTensor<bool>) {
        NdArrayOps::flip(tensor, axes)
    }

    fn bool_permute(tensor: NdArrayTensor<bool>, dims: Vec<usize>) -> (r: NdArrayTensor<bool>) {
        NdArrayOps::permute(tensor, dims)
    }

    fn bool_equal(lhs: NdArrayTensor<bool>, rhs: NdArrayTensor<bool>) -> (r: NdArrayTensor<bool>) {
        NdArrayMathOps::bool_equal(lhs, rhs)
    }

    fn bool_equal_elem(lhs: NdArrayTensor<bool>, rhs: bool) -> (r: NdArrayTensor<bool>) {
        NdArrayMathOps::bool_equal_elem(lhs, rhs)
    }

    fn bool_into_int(tensor: NdArrayTensor<bool>) -> (r: NdArrayTensor<i64>) {
        NdArrayMathOps::bool_into_int(tensor)
    }
}

/// A backend that relays every operation, unchanged, to the backend `B` it wraps;
/// the place where gradient bookkeeping is added.
pub struct ADBackendDecorator<B> {
    b: core::marker::PhantomData<B>,
}

impl<B: IntTensorOps> IntTensorOps for ADBackendDecorator<B> {
    fn int_from_data(data: Data<i64>) -> (r: NdArrayTensor<i64>) {
        B::int_from_data(data)
    }

    fn int_into_data(tensor: NdArrayTensor<i64>) -> (r: Data<i64>) {
        B::int_into_data(tensor)
    }

    fn int_to_data(tensor: &NdArrayTensor<i64>) -> (r: Data<i64>) {
        B::int_to_data(tensor)
    }

    fn int_shape(tensor: &NdArrayTensor<i64>) -> (r: Shape) {
        B::int_shape(tensor)
    }

    fn int_device(tensor: &NdArrayTensor<i64>) -> (r: Device) {
        B::int_device(tensor)
    }

    fn int_to_device(tensor: NdArrayTensor<i64>, device: &Device) -> (r: NdArrayTensor<i64>) {
        B::int_to_device(tensor, device)
    }

    fn int_empty(shape: Shape) -> (r: NdArrayTensor<i64>) {
        B::int_empty(shape)
    }

    fn int_zeros(shape: Shape) -> (r: NdArrayTensor<i64>) {
        B::int_zeros(shape)
    }

    fn int_ones(shape: Shape) -> (r: NdArrayTensor<i64>) {
        B::int_ones(shape)
    }

    fn int_reshape(tensor: NdArrayTensor<i64>, shape: Shape) -> (r: NdArrayTensor<i64>) {
        B::int_reshape(tensor, shape)
    }

    fn int_index(
        tensor: NdArrayTensor<i64>,
        indexes: Vec<Range<usize>>,
    ) -> (r: NdArrayTensor<i64>) {
        B::int_index(tensor, indexes)
    }

    fn int_index_assign(
        tensor: NdArrayTensor<i64>,
        indexes: Vec<Range<usize>>,
        value: NdArrayTensor<i64>,
    ) -> (r: NdArrayTensor<i64>) {
        B::int_index_assign(tensor, indexes, value)
    }

    fn int_cat(tensors: Vec<NdArrayTensor<i64>>, dim: usize) -> (r: NdArrayTensor<i64>) {
        B::int_cat(tensors, dim)
    }

    fn int_mask_scatter(
        tensor: NdArrayTensor<i64>,
        mask: NdArrayTensor<bool>,
        source: NdArrayTensor<i64>,
    ) -> (r: NdArrayTensor<i64>) {
        B::int_mask_scatter(tensor, mask, source)
    }

    fn int_mask_fill(
        tensor: NdArrayTensor<i64>,
        mask: NdArrayTensor<bool>,
        value: i64,
    ) -> (r: NdArrayTensor<i64>) {
        B::int_mask_fill(tensor, mask, value)
    }

    fn int_index_select(
        tensor: NdArrayTensor<i64>,
        indexes: NdArrayTensor<i64>,
    ) -> (r: NdArrayTensor<i64>) {
        B::int_index_select(tensor, indexes)
    }

    fn int_gather(
        tensor: NdArrayTensor<i64>,
        dim: usize,
        indexes: NdArrayTensor<i64>,
    ) -> (r: NdArrayTensor<i64>) {
        B::int_gather(tensor, dim, indexes)
    }

    fn int_index_select_assign(
        tensor: NdArrayTensor<i64>,
        indexes: NdArrayTensor<i64>,
        value: NdArrayTensor<i64>,
    ) -> (r: NdArrayTensor<i64>) {
        B::int_index_select_assign(tensor, indexes, value)
    }

    fn int_index_select_dim(
        tensor: NdArrayTensor<i64>,
        dim: usize,
        indexes: NdArrayTensor<i64>,
    ) -> (r: NdArrayTensor<i64>) {
        B::int_index_select_dim(tensor, dim, indexes)
    }

    fn int_index_select_dim_assign(
        tensor: NdArrayTensor<i64>,
        dim: usize,
        indexes: NdArrayTensor<i64>,
        value: NdArrayTensor<i64>,
    ) -> (r: NdArrayTensor<i64>) {
        B::int_index_select_dim_assign(tensor, dim, indexes, value)
    }

    fn int_equal(lhs: NdArrayTensor<i64>, rhs: NdArrayTensor<i64>) -> (r: NdArrayTensor<bool>) {
        B::int_equal(lhs, rhs)
    }

    fn int_equal_elem(lhs: NdArrayTensor<i64>, rhs: i64) -> (r: NdArrayTensor<bool>) {
        B::int_equal_elem(lhs, rhs)
    }

    fn int_greater(lhs: NdArrayTensor<i64>, rhs: NdArrayTensor<i64>) -> (r: NdArrayTensor<bool>) {
        B::int_greater(lhs, rhs)
    }

    fn int_greater_elem(lhs: NdArrayTensor<i64>, rhs: i64) -> (r: NdArrayTensor<bool>) {
        B::int_greater_elem(lhs, rhs)
    }

    fn int_greater_equal(
        lhs: NdArrayTensor<i64>,
        rhs: NdArrayTensor<i64>,
    ) -> (r: NdArrayTensor<bool>) {
        B::int_greater_equal(lhs, rhs)
    }

    fn int_greater_equal_elem(lhs: NdArrayTensor<i64>, rhs: i64) -> (r: NdArrayTensor<bool>) {
        B::int_greater_equal_elem(lhs, rhs)
    }

    fn int_lower(lhs: NdArrayTensor<i64>, rhs: NdArrayTensor<i64>) -> (r: NdArrayTensor<bool>) {
        B::int_lower(lhs, rhs)
    }

    fn int_lower_elem(lhs: NdArrayTensor<i64>, rhs: i64) -> (r: NdArrayTensor<bool>) {
        B::int_lower_elem(lhs, rhs)
    }

    fn int_lower_equal(
        lhs: NdArrayTensor<i64>,
        rhs: NdArrayTensor<i64>,
    ) -> (r: NdArrayTensor<bool>) {
        B::int_lower_equal(lhs, rhs)
    }

    fn int_lower_equal_elem(lhs: NdArrayTensor<i64>, rhs: i64) -> (r: NdArrayTensor<bool>) {
        B::int_lower_equal_elem(lhs, rhs)
    }

    fn int_add(lhs: NdArrayTensor<i64>, rhs: NdArrayTensor<i64>) -> (r: NdArrayTensor<i64>) {
        B::int_add(lhs, rhs)
    }

    fn int_add_scalar(lhs: NdArrayTensor<i64>, rhs: i64) -> (r: NdArrayTensor<i64>) {
        B::int_add_scalar(lhs, rhs)
    }

    fn int_sub(lhs: NdArrayTensor<i64>, rhs: NdArrayTensor<i64>) -> (r: NdArrayTensor<i64>) {
        B::int_sub(lhs, rhs)
    }

    fn int_sub_scalar(lhs: NdArrayTensor<i64>, rhs: i64) -> (r: NdArrayTensor<i64>) {
        B::int_sub_scalar(lhs, rhs)
    }

    fn int_mul(lhs: NdArrayTensor<i64>, rhs: NdArrayTensor<i64>) -> (r: NdArrayTensor<i64>) {
        B::int_mul(lhs, rhs)
    }

    fn int_mul_scalar(lhs: NdArrayTensor<i64>, rhs: i64) -> (r: NdArrayTensor<i64>) {
        B::int_mul_scalar(lhs, rhs)
    }

    fn int_div(lhs: NdArrayTensor<i64>, rhs: NdArrayTensor<i64>) -> (r: NdArrayTensor<i64>) {
        B::int_div(lhs, rhs)
    }

    fn int_div_scalar(lhs: NdArrayTensor<i64>, rhs: i64) -> (r: NdArrayTensor<i64>) {
        B::int_div_scalar(lhs, rhs)
    }

    fn int_neg(tensor: NdArrayTensor<i64>) -> (r: NdArrayTensor<i64>) {
        B::int_neg(tensor)
    }

    fn int_sum(tensor: NdArrayTensor<i64>) -> (r: NdArrayTensor<i64>) {
        B::int_sum(tensor)
    }

    fn int_sum_dim(tensor: NdArrayTensor<i64>, dim: usize) -> (r: NdArrayTensor<i64>) {
        B::int_sum_dim(tensor, dim)
    }

    fn int_mean(tensor: NdArrayTensor<i64>) -> (r: NdArrayTensor<i64>) {
        B::int_mean(tensor)
    }

    fn int_mean_dim(tensor: NdArrayTensor<i64>, dim: usize) -> (r: NdArrayTensor<i64>) {
        B::int_mean_dim(tensor, dim)
    }

    fn int_argmax(tensor: NdArrayTensor<i64>, dim: usize) -> (r: NdArrayTensor<i64>) {
        B::int_argmax(tensor, dim)
    }

    fn int_argmin(tensor: NdArrayTensor<i64>, dim: usize) -> (r: NdArrayTensor<i64>) {
        B::int_argmin(tensor, dim)
    }

    fn int_swap_dims(
        tensor: NdArrayTensor<i64>,
        dim1: usize,
        dim2: usize,
    ) -> (r: NdArrayTensor<i64>) {
        B::int_swap_dims(tensor, dim1, dim2)
    }

    fn int_flip(tensor: NdArrayTensor<i64>, axes: Vec<usize>) -> (r: NdArrayTensor<i64>) {
        B::int_flip(tensor, axes)
    }

    fn int_permute(tensor: NdArrayTensor<i64>, dims: Vec<usize>) -> (r: NdArrayTensor<i64>) {
        B::int_permute(tensor, dims)
    }
}

impl<B: BoolTensorOps> BoolTensorOps for ADBackendDecorator<B> {
    fn bool_from_data(data: Data<bool>) -> (r: NdArrayTensor<bool>) {
        B::bool_from_data(data)
    }

    fn bool_into_data(tensor: NdArrayTensor<bool>) -> (r: Data<bool>) {
        B::bool_into_data(tensor)
    }

    fn bool_to_data(tensor: &NdArrayTensor<bool>) -> (r: Data<bool>) {
        B::bool_to_data(tensor)
    }

    fn bool_shape(tensor: &NdArrayTensor<bool>) -> (r: Shape) {
        B::bool_shape(tensor)
    }

    fn bool_device(tensor: &NdArrayTensor<bool>) -> (r: Device) {
        B::bool_device(tensor)
    }

    fn bool_to_device(tensor: NdArrayTensor<bool>, device: &Device) -> (r: NdArrayTensor<bool>) {
        B::bool_to_device(tensor, device)
    }

    fn bool_empty(shape: Shape) -> (r: NdArrayTensor<bool>) {
        B::bool_empty(shape)
    }

    fn bool_reshape(tensor: NdArrayTensor<bool>, shape: Shape) -> (r: NdArrayTensor<bool>) {
        B::bool_reshape(tensor, shape)
    }

    fn bool_index(
        tensor: NdArrayTensor<bool>,
        indexes: Vec<Range<usize>>,
    ) -> (r: NdArrayTensor<bool>) {
        B::bool_index(tensor, indexes)
    }

    fn bool_index_assign(
        tensor: NdArrayTensor<bool>,
        indexes: Vec<Range<usize>>,
        value: NdArrayTensor<bool>,
    ) -> (r: NdArrayTensor<bool>) {
        B::bool_index_assign(tensor, indexes, value)
    }

    fn bool_cat(tensors: Vec<NdArrayTensor<bool>>, dim: usize) -> (r: NdArrayTensor<bool>) {
        B::bool_cat(tensors, dim)
    }

    fn bool_flip(tensor: NdArrayTensor<bool>, axes: Vec<usize>) -> (r: NdArrayTensor<bool>) {
        B::bool_flip(tensor, axes)
    }

    fn bool_permute(tensor: NdArrayTensor<bool>, dims: Vec<usize>) -> (r: NdArrayTensor<bool>) {
        B::bool_permute(tensor, dims)
    }

    fn bool_equal(lhs: NdArrayTensor<bool>, rhs: NdArrayTensor<bool>) -> (r: NdArrayTensor<bool>) {
        B::bool_equal(lhs, rhs)
    }

    fn bool_equal_elem(lhs: NdArrayTensor<bool>, rhs: bool) -> (r: NdArrayTensor<bool>) {
        B::bool_equal_elem(lhs, rhs)
    }

    fn bool_into_int(tensor: NdArrayTensor<bool>) -> (r: NdArrayTensor<i64>) {
        B::bool_into_int(tensor)
    }
}

} // verus!
