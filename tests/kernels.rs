use burn_tensor::backend::{ADBackendDecorator, BoolTensorOps, IntTensorOps, NdArrayBackend};
use burn_tensor::composed::{
    arange, max, max_dim, max_dim_with_indexes, min, min_dim, narrow, repeat, transpose, where_self,
};
use burn_tensor::math::NdArrayMathOps;
use burn_tensor::shape::{Device, Shape};
use burn_tensor::tensor::{Data, NdArrayOps, NdArrayTensor};

type Fwd = ADBackendDecorator<NdArrayBackend>;

fn tensor<E>(values: Vec<E>, dims: &[usize]) -> NdArrayTensor<E> {
    NdArrayTensor::from_data(Data::new(values, Shape::new(dims.to_vec())))
}

fn dims<E>(t: &NdArrayTensor<E>) -> Vec<usize> {
    t.shape.dims.clone()
}

#[test]
fn argmax_takes_first_occurrence() {
    let t = tensor(vec![3i64, 3, 1], &[3]);
    let r = NdArrayMathOps::<i64>::argmax(t, 0);
    assert_eq!(r.data, vec![0]);
    assert_eq!(dims(&r), vec![1]);
}

#[test]
fn argmin_takes_first_occurrence() {
    let t = tensor(vec![4i64, 1, 7, 1], &[4]);
    let r = NdArrayMathOps::<i64>::argmin(t, 0);
    assert_eq!(r.data, vec![1]);
}

#[test]
fn argmax_along_each_axis_keeps_dims() {
    // [[1, 9, 3],
    //  [8, 2, 9]]
    let t = tensor(vec![1i64, 9, 3, 8, 2, 9], &[2, 3]);
    let along_rows = NdArrayMathOps::<i64>::argmax(t.duplicate(), 1);
    assert_eq!(dims(&along_rows), vec![2, 1]);
    assert_eq!(along_rows.data, vec![1, 2]);
    let along_cols = NdArrayMathOps::<i64>::argmax(t, 0);
    assert_eq!(dims(&along_cols), vec![1, 3]);
    assert_eq!(along_cols.data, vec![1, 0, 1]);
}

#[test]
fn mask_fill_replaces_masked_values() {
    let t = tensor(vec![0.6f32, 0.9], &[2]);
    let mask = tensor(vec![false, true], &[2]);
    let r = NdArrayMathOps::mask_fill(t, mask, 0.5f32);
    assert_eq!(r.data, vec![0.6f32, 0.5]);
    assert_eq!(dims(&r), vec![2]);
}

#[test]
fn mask_scatter_takes_masked_values_from_source() {
    let t = tensor(vec![1i64, 2, 3, 4], &[2, 2]);
    let mask = tensor(vec![true, false, false, true], &[2, 2]);
    let source = tensor(vec![10i64, 20, 30, 40], &[2, 2]);
    let r = NdArrayMathOps::mask_scatter(t, mask, source);
    assert_eq!(r.data, vec![10, 2, 3, 40]);
}

#[test]
fn repeat_composes_slot_writes() {
    let t = tensor(vec![1i64, 2], &[1, 2]);
    let r = repeat::<NdArrayBackend>(t, 0, 3).unwrap();
    assert_eq!(dims(&r), vec![3, 2]);
    assert_eq!(r.data, vec![1, 2, 1, 2, 1, 2]);
}

#[test]
fn repeat_rejects_axis_not_of_size_one() {
    let t = tensor(vec![1i64, 2], &[1, 2]);
    assert!(repeat::<NdArrayBackend>(t, 1, 3).is_none());
}

#[test]
fn repeat_along_inner_axis() {
    let t = tensor(vec![5i64, 6], &[2, 1]);
    let r = repeat::<Fwd>(t, 1, 2).unwrap();
    assert_eq!(dims(&r), vec![2, 2]);
    assert_eq!(r.data, vec![5, 5, 6, 6]);
}

#[test]
fn round_trip_keeps_shape_and_values() {
    let t = tensor(vec![7i64, -1, 4, 0, 2, 9], &[3, 2]);
    let data = NdArrayBackend::int_into_data(t);
    assert_eq!(data.value, vec![7, -1, 4, 0, 2, 9]);
    let back = NdArrayBackend::int_from_data(data);
    assert_eq!(dims(&back), vec![3, 2]);
    assert_eq!(back.data, vec![7, -1, 4, 0, 2, 9]);
    let b = tensor(vec![true, false], &[2]);
    let back = NdArrayBackend::bool_from_data(NdArrayBackend::bool_into_data(b));
    assert_eq!(back.data, vec![true, false]);
}

#[test]
fn decorator_forwards_unchanged() {
    let a = || tensor(vec![1i64, -2, 3, 4, 5, 6], &[2, 3]);
    let b = || tensor(vec![10i64, 20, 30], &[1, 3]);
    assert_eq!(Fwd::int_add(a(), b()).data, NdArrayBackend::int_add(a(), b()).data);
    assert_eq!(Fwd::int_mul(a(), b()).data, NdArrayBackend::int_mul(a(), b()).data);
    assert_eq!(Fwd::int_sum_dim(a(), 0).data, NdArrayBackend::int_sum_dim(a(), 0).data);
    assert_eq!(Fwd::int_argmax(a(), 1).data, NdArrayBackend::int_argmax(a(), 1).data);
    assert_eq!(
        Fwd::int_index(a(), vec![1..2, 0..2]).data,
        NdArrayBackend::int_index(a(), vec![1..2, 0..2]).data
    );
    assert_eq!(Fwd::int_greater(a(), b()).data, NdArrayBackend::int_greater(a(), b()).data);
    assert_eq!(Fwd::int_device(&a()), NdArrayBackend::int_device(&a()));
    let m = || tensor(vec![true, false, true], &[3]);
    assert_eq!(Fwd::bool_equal_elem(m(), true).data, NdArrayBackend::bool_equal_elem(m(), true).data);
}

#[test]
fn index_reads_a_region() {
    // 3 x 4: value = 10 * row + column
    let t = tensor(vec![0i64, 1, 2, 3, 10, 11, 12, 13, 20, 21, 22, 23], &[3, 4]);
    let r = NdArrayOps::index(t.duplicate(), vec![1..3, 1..3]);
    assert_eq!(dims(&r), vec![2, 2]);
    assert_eq!(r.data, vec![11, 12, 21, 22]);
    let rows = NdArrayOps::index(t, vec![2..3]);
    assert_eq!(dims(&rows), vec![1, 4]);
    assert_eq!(rows.data, vec![20, 21, 22, 23]);
}

#[test]
fn index_assign_writes_a_region() {
    let t = tensor(vec![0i64; 6], &[2, 3]);
    let v = tensor(vec![7i64, 8], &[2, 1]);
    let r = NdArrayOps::index_assign(t, vec![0..2, 1..2], v);
    assert_eq!(r.data, vec![0, 7, 0, 0, 8, 0]);
}

#[test]
fn reshape_keeps_values() {
    let t = tensor(vec![1i64, 2, 3, 4], &[2, 2]);
    let r = NdArrayOps::reshape(t, Shape::new(vec![1, 4]));
    assert_eq!(dims(&r), vec![1, 4]);
    assert_eq!(r.data, vec![1, 2, 3, 4]);
}

#[test]
fn cat_joins_in_order() {
    let a = tensor(vec![1i64, 2, 3, 4], &[2, 2]);
    let b = tensor(vec![5i64, 6], &[2, 1]);
    let r = NdArrayOps::cat(vec![a, b], 1);
    assert_eq!(dims(&r), vec![2, 3]);
    assert_eq!(r.data, vec![1, 2, 5, 3, 4, 6]);
    let c = tensor(vec![1i64, 2], &[1, 2]);
    let d = tensor(vec![3i64, 4, 5, 6], &[2, 2]);
    let rows = NdArrayOps::cat(vec![c, d], 0);
    assert_eq!(dims(&rows), vec![3, 2]);
    assert_eq!(rows.data, vec![1, 2, 3, 4, 5, 6]);
}

#[test]
fn swap_dims_and_transpose() {
    let t = tensor(vec![1i64, 2, 3, 4, 5, 6], &[2, 3]);
    let r = NdArrayOps::swap_dims(t.duplicate(), 0, 1);
    assert_eq!(dims(&r), vec![3, 2]);
    assert_eq!(r.data, vec![1, 4, 2, 5, 3, 6]);
    let tr = transpose::<NdArrayBackend>(t);
    assert_eq!(tr.data, vec![1, 4, 2, 5, 3, 6]);
}

#[test]
fn add_broadcasts_size_one_axes() {
    let a = tensor(vec![1i64, 2, 3], &[3, 1]);
    let b = tensor(vec![10i64, 20], &[1, 2]);
    let r = NdArrayMathOps::<i64>::add(a, b);
    assert_eq!(dims(&r), vec![3, 2]);
    assert_eq!(r.data, vec![11, 21, 12, 22, 13, 23]);
}

#[test]
fn arithmetic_element_wise() {
    let a = || tensor(vec![7i64, -7, 9], &[3]);
    let b = || tensor(vec![2i64, 2, -3], &[3]);
    assert_eq!(NdArrayMathOps::<i64>::sub(a(), b()).data, vec![5, -9, 12]);
    assert_eq!(NdArrayMathOps::<i64>::mul(a(), b()).data, vec![14, -14, -27]);
    assert_eq!(NdArrayMathOps::<i64>::div(a(), b()).data, vec![3, -3, -3]);
    assert_eq!(NdArrayMathOps::<i64>::add_scalar(a(), 1).data, vec![8, -6, 10]);
    assert_eq!(NdArrayMathOps::<i64>::sub_scalar(a(), 1).data, vec![6, -8, 8]);
    assert_eq!(NdArrayMathOps::<i64>::mul_scalar(a(), -2).data, vec![-14, 14, -18]);
    assert_eq!(NdArrayMathOps::<i64>::div_scalar(a(), 2).data, vec![3, -3, 4]);
    assert_eq!(NdArrayBackend::int_neg(a()).data, vec![-7, 7, -9]);
}

#[test]
fn arithmetic_wraps_on_overflow() {
    let a = tensor(vec![i64::MAX, i64::MIN], &[2]);
    let r = NdArrayMathOps::<i64>::add_scalar(a, 1);
    assert_eq!(r.data, vec![i64::MIN, i64::MIN + 1]);
    let m = tensor(vec![i64::MIN], &[1]);
    assert_eq!(NdArrayMathOps::<i64>::div_scalar(m, -1).data, vec![i64::MIN]);
}

#[test]
fn reductions() {
    let t = || tensor(vec![1i64, 2, 3, 4, 5, 7], &[2, 3]);
    let s = NdArrayMathOps::<i64>::sum(t());
    assert_eq!(dims(&s), vec![1]);
    assert_eq!(s.data, vec![22]);
    assert_eq!(NdArrayMathOps::<i64>::mean(t()).data, vec![3]);
    let sd = NdArrayMathOps::<i64>::sum_dim(t(), 0);
    assert_eq!(dims(&sd), vec![1, 3]);
    assert_eq!(sd.data, vec![5, 7, 10]);
    let md = NdArrayMathOps::<i64>::mean_dim(t(), 1);
    assert_eq!(dims(&md), vec![2, 1]);
    assert_eq!(md.data, vec![2, 5]);
}

#[test]
fn index_select_gathers_along_last_axis() {
    let t = tensor(vec![1i64, 2, 3, 4, 5, 6], &[2, 3]);
    let idx = tensor(vec![2i64, 0, 1, 1], &[2, 2]);
    let r = NdArrayMathOps::index_select(t, idx);
    assert_eq!(dims(&r), vec![2, 2]);
    assert_eq!(r.data, vec![3, 1, 5, 5]);
}

#[test]
fn index_select_assign_adds_into_positions() {
    let t = tensor(vec![0i64; 6], &[2, 3]);
    let idx = tensor(vec![2i64, 2, 0, 1], &[2, 2]);
    let v = tensor(vec![1i64, 2, 3, 4], &[2, 2]);
    let r = NdArrayMathOps::<i64>::index_select_assign(t, idx, v);
    assert_eq!(r.data, vec![0, 0, 3, 3, 4, 0]);
}

#[test]
fn index_select_dim_selects_sub_arrays() {
    let t = tensor(vec![1i64, 2, 3, 4, 5, 6], &[3, 2]);
    let idx = tensor(vec![2i64, 0, 2], &[3]);
    let r = NdArrayMathOps::index_select_dim(t, 0, idx);
    assert_eq!(dims(&r), vec![3, 2]);
    assert_eq!(r.data, vec![5, 6, 1, 2, 5, 6]);
}

#[test]
fn index_select_dim_assign_accumulates_sub_arrays() {
    let t = tensor(vec![1i64, 1, 1, 1], &[2, 2]);
    let idx = tensor(vec![1i64, 1, 0], &[3]);
    let v = tensor(vec![10i64, 20, 30, 40, 50, 60], &[3, 2]);
    let r = NdArrayMathOps::<i64>::index_select_dim_assign(t, 0, idx, v);
    assert_eq!(r.data, vec![51, 61, 41, 61]);
}

#[test]
fn comparisons() {
    let a = || tensor(vec![1i64, 5, 3], &[3]);
    let b = || tensor(vec![3i64], &[1]);
    assert_eq!(NdArrayBackend::int_equal(a(), b()).data, vec![false, false, true]);
    assert_eq!(NdArrayBackend::int_greater(a(), b()).data, vec![false, true, false]);
    assert_eq!(NdArrayBackend::int_greater_equal(a(), b()).data, vec![false, true, true]);
    assert_eq!(NdArrayBackend::int_lower(a(), b()).data, vec![true, false, false]);
    assert_eq!(NdArrayBackend::int_lower_equal(a(), b()).data, vec![true, false, true]);
    assert_eq!(NdArrayBackend::int_lower_elem(a(), 2).data, vec![true, false, false]);
    assert_eq!(NdArrayBackend::int_equal_elem(a(), 5).data, vec![false, true, false]);
}

#[test]
fn comparison_is_exact_near_the_limits() {
    let a = tensor(vec![i64::MAX], &[1]);
    let b = tensor(vec![-1i64], &[1]);
    assert_eq!(NdArrayBackend::int_greater(a, b).data, vec![true]);
}

#[test]
fn bool_family() {
    let a = tensor(vec![true, false, true, false], &[4]);
    let b = tensor(vec![true, true, false, false], &[4]);
    assert_eq!(NdArrayBackend::bool_equal(a.duplicate(), b).data, vec![true, false, false, true]);
    assert_eq!(NdArrayBackend::bool_into_int(a).data, vec![1, 0, 1, 0]);
    let e = NdArrayBackend::bool_empty(Shape::new(vec![2, 1]));
    assert_eq!(e.data, vec![false, false]);
}

#[test]
fn factories() {
    assert_eq!(NdArrayBackend::int_zeros(Shape::new(vec![2])).data, vec![0, 0]);
    assert_eq!(NdArrayBackend::int_ones(Shape::new(vec![3])).data, vec![1, 1, 1]);
    let r = arange::<NdArrayBackend>(2..6);
    assert_eq!(dims(&r), vec![4]);
    assert_eq!(r.data, vec![2, 3, 4, 5]);
    let t = tensor(vec![1i64], &[1]);
    assert_eq!(NdArrayBackend::int_device(&t), Device::Cpu);
}

#[test]
fn max_and_min_with_indexes() {
    let t = || tensor(vec![4i64, 9, 9, 2, 0, 2], &[2, 3]);
    let (values, indexes) = max_dim_with_indexes::<NdArrayBackend>(t(), 1);
    assert_eq!(values.data, vec![9, 2]);
    assert_eq!(indexes.data, vec![1, 0]);
    assert_eq!(max_dim::<Fwd>(t(), 1).data, vec![9, 2]);
    assert_eq!(min_dim::<NdArrayBackend>(t(), 1).data, vec![4, 0]);
}

#[test]
fn whole_tensor_max_and_min() {
    let t = || tensor(vec![3i64, -4, 8, 8, 0, -4], &[2, 3]);
    let mx = max::<NdArrayBackend>(t());
    assert_eq!(dims(&mx), vec![1]);
    assert_eq!(mx.data, vec![8]);
    assert_eq!(min::<Fwd>(t()).data, vec![-4]);
}

#[test]
fn flip_reverses_listed_axes() {
    let t = tensor(vec![1i64, 2, 3, 4, 5, 6], &[2, 3]);
    let r = NdArrayOps::flip(t.duplicate(), vec![1]);
    assert_eq!(r.data, vec![3, 2, 1, 6, 5, 4]);
    let both = NdArrayBackend::int_flip(t, vec![0, 1]);
    assert_eq!(both.data, vec![6, 5, 4, 3, 2, 1]);
}

#[test]
fn permute_reorders_axes() {
    // shape [2, 1, 3] -> axes (2, 0, 1) -> shape [3, 2, 1]
    let t = tensor(vec![1i64, 2, 3, 4, 5, 6], &[2, 1, 3]);
    let r = NdArrayBackend::int_permute(t, vec![2, 0, 1]);
    assert_eq!(dims(&r), vec![3, 2, 1]);
    assert_eq!(r.data, vec![1, 4, 2, 5, 3, 6]);
    let b = tensor(vec![true, false, false, true, true, false], &[3, 2]);
    let rb = NdArrayBackend::bool_permute(b, vec![1, 0]);
    assert_eq!(dims(&rb), vec![2, 3]);
    assert_eq!(rb.data, vec![true, false, true, false, true, false]);
}

#[test]
fn pad_surrounds_with_value() {
    let t = tensor(vec![1i64, 2], &[1, 2]);
    let r = NdArrayOps::pad(t, vec![1, 0], vec![0, 1], 9);
    assert_eq!(dims(&r), vec![2, 3]);
    assert_eq!(r.data, vec![9, 9, 9, 1, 2, 9]);
}

#[test]
fn copy_replaces_elements_in_place() {
    let mut t = tensor(vec![1i64, 2, 3], &[3]);
    NdArrayOps::copy_(&mut t, tensor(vec![7i64, 8, 9], &[3]));
    assert_eq!(t.data, vec![7, 8, 9]);
    assert_eq!(dims(&t), vec![3]);
}

#[test]
fn narrow_keeps_a_window() {
    let t = tensor(vec![1i64, 2, 3, 4, 5, 6, 7, 8], &[2, 4]);
    let r = narrow::<NdArrayBackend>(t, 1, 1, 2);
    assert_eq!(dims(&r), vec![2, 2]);
    assert_eq!(r.data, vec![2, 3, 6, 7]);
}

#[test]
fn where_self_selects_by_condition() {
    let t = tensor(vec![1i64, 2, 3], &[3]);
    let c = tensor(vec![true, false, true], &[3]);
    let o = tensor(vec![-1i64, -2, -3], &[3]);
    assert_eq!(where_self::<Fwd>(t, c, o).data, vec![1, -2, 3]);
}

#[test]
fn to_data_keeps_the_tensor() {
    let t = tensor(vec![4i64, 5, 6], &[3, 1]);
    let data = NdArrayBackend::int_to_data(&t);
    assert_eq!(data.value, vec![4, 5, 6]);
    assert_eq!(data.shape.dims, vec![3, 1]);
    assert_eq!(t.data, vec![4, 5, 6]);
    let b = tensor(vec![false, true], &[2]);
    assert_eq!(Fwd::bool_to_data(&b).value, vec![false, true]);
}

#[test]
fn gather_along_any_axis() {
    // [[1, 2, 3],
    //  [4, 5, 6]]
    let t = tensor(vec![1i64, 2, 3, 4, 5, 6], &[2, 3]);
    let idx = tensor(vec![1i64, 0, 1], &[1, 3]);
    let r = NdArrayBackend::int_gather(t, 0, idx);
    assert_eq!(dims(&r), vec![1, 3]);
    assert_eq!(r.data, vec![4, 2, 6]);
}

#[test]
fn max_and_min_along_first_axis() {
    let t = || tensor(vec![4i64, 9, 9, 7, 0, 9], &[2, 3]);
    let (values, indexes) = max_dim_with_indexes::<NdArrayBackend>(t(), 0);
    assert_eq!(dims(&values), vec![1, 3]);
    assert_eq!(values.data, vec![7, 9, 9]);
    assert_eq!(indexes.data, vec![1, 0, 0]);
    assert_eq!(min_dim::<Fwd>(t(), 0).data, vec![4, 0, 9]);
}
