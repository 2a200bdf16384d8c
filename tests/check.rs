use burn_tensor::check::{
    FailedTensorCheck, TensorCheck, TensorError, AGGREGATE_DIM_FAILED, CAT_DIM_FAILED,
    CAT_EMPTY_FAILED, CAT_SHAPES_FAILED, DEVICE_MISMATCH, FLATTEN_END_OUT_OF_RANK,
    FLATTEN_RANK_GROWS, FLATTEN_START_AFTER_END, INCOMPATIBLE_SHAPES, INDEX_EMPTY_FAILED,
    INDEX_EXCEEDS_FAILED, INDEX_RANK_FAILED, INDEX_VALUE_FAILED, INTO_SCALAR_FAILED,
    MATMUL_INNER_FAILED, RESHAPE_FAILED, SWAP_DIMS_FAILED, UNSQUEEZE_FAILED,
};
use burn_tensor::shape::{Device, Shape};

fn enforce(check: TensorCheck) {
    if let Some(message) = check.message() {
        panic!("{}", message);
    }
}

fn descriptions(check: &TensorCheck) -> Vec<String> {
    match check {
        TensorCheck::Passed => vec![],
        TensorCheck::Failed(failed) => {
            failed.errors.iter().map(|e| e.description.clone()).collect()
        }
    }
}

fn ops_name(check: &TensorCheck) -> String {
    match check {
        TensorCheck::Passed => String::new(),
        TensorCheck::Failed(failed) => failed.ops.clone(),
    }
}

fn shape(dims: &[usize]) -> Shape {
    Shape::new(dims.to_vec())
}

#[test]
#[should_panic]
fn reshape_invalid_shape() {
    enforce(TensorCheck::reshape(&shape(&[2, 2]), &shape(&[1, 3])));
}

#[test]
fn reshape_valid_shape() {
    enforce(TensorCheck::reshape(&shape(&[2, 2]), &shape(&[1, 4])));
}

#[test]
#[should_panic]
fn index_range_exceed_dimension() {
    enforce(TensorCheck::index(&shape(&[3, 5, 7]), &vec![0..2, 0..4, 1..8]));
}

#[test]
#[should_panic]
fn index_range_exceed_number_of_dimensions() {
    enforce(TensorCheck::index(&shape(&[3, 5]), &vec![0..1, 0..1, 0..1]));
}

#[test]
#[should_panic]
fn binary_ops_shapes_no_broadcast() {
    enforce(TensorCheck::binary_ops_ew_shape(
        TensorCheck::Passed,
        "TestOps",
        &shape(&[3, 5]),
        &shape(&[3, 6]),
    ));
}

#[test]
fn binary_ops_shapes_with_broadcast() {
    enforce(TensorCheck::binary_ops_ew_shape(
        TensorCheck::Passed,
        "Test",
        &shape(&[3, 5]),
        &shape(&[1, 5]),
    ));
}

#[test]
#[should_panic]
fn binary_ops_devices() {
    enforce(TensorCheck::binary_ops_device(
        TensorCheck::Passed,
        "Test",
        &Device::Unit(5),
        &Device::Unit(8),
    ));
}

#[test]
fn broadcast_failure_names_the_axis() {
    let check = TensorCheck::binary_ops_ew_shape(
        TensorCheck::Passed,
        "Add",
        &shape(&[3, 5]),
        &shape(&[3, 6]),
    );
    assert_eq!(descriptions(&check), vec![INCOMPATIBLE_SHAPES.to_string()]);
    assert_eq!(ops_name(&check), "Add");
    let message = check.message().unwrap();
    assert!(message.contains("dimension '1'"));
    assert!(message.contains("'5 != 6'"));
    assert!(message.contains("[3, 5]"));
    assert!(message.contains("[3, 6]"));
}

#[test]
fn broadcast_reports_every_incompatible_axis() {
    let check = TensorCheck::binary_ops_ew_shape(
        TensorCheck::Passed,
        "Mul",
        &shape(&[2, 3, 4]),
        &shape(&[5, 1, 6]),
    );
    assert_eq!(
        descriptions(&check),
        vec![INCOMPATIBLE_SHAPES.to_string(), INCOMPATIBLE_SHAPES.to_string()]
    );
}

#[test]
fn broadcast_accepts_size_one_on_either_side() {
    let check = TensorCheck::binary_ops_ew_shape(
        TensorCheck::Passed,
        "Sub",
        &shape(&[1, 4, 1]),
        &shape(&[7, 4, 2]),
    );
    assert!(check.is_ok());
}

#[test]
fn binary_check_collects_device_and_shape_violations() {
    let check = TensorCheck::binary_ops_ew(
        "Add",
        &shape(&[2, 3]),
        &Device::Cpu,
        &shape(&[4, 3]),
        &Device::Unit(0),
    );
    assert_eq!(
        descriptions(&check),
        vec![DEVICE_MISMATCH.to_string(), INCOMPATIBLE_SHAPES.to_string()]
    );
    let message = check.message().unwrap();
    assert!(message.contains("Lhs tensor device Cpu, Rhs tensor device Unit(0)."));
}

#[test]
fn binary_check_passes_on_same_device() {
    let check = TensorCheck::binary_ops_ew(
        "Add",
        &shape(&[2, 3]),
        &Device::Unit(1),
        &shape(&[2, 1]),
        &Device::Unit(1),
    );
    assert!(check.is_ok());
}

#[test]
fn reshape_failure_reports_both_counts() {
    let check = TensorCheck::reshape(&shape(&[2, 2]), &shape(&[1, 3]));
    assert_eq!(descriptions(&check), vec![RESHAPE_FAILED.to_string()]);
    assert_eq!(ops_name(&check), "Reshape");
    let message = check.message().unwrap();
    assert!(message.contains("Current shape: [2, 2], target shape: [1, 3]."));
    assert!(message.contains("Current elements: 4, target elements: 3."));
}

#[test]
fn reshape_of_empty_shapes() {
    assert!(TensorCheck::reshape(&shape(&[0, 5]), &shape(&[3, 0])).is_ok());
    assert!(!TensorCheck::reshape(&shape(&[]), &shape(&[0])).is_ok());
}

#[test]
fn into_scalar_needs_one_element() {
    assert!(TensorCheck::into_scalar(&shape(&[1, 1, 1])).is_ok());
    let check = TensorCheck::into_scalar(&shape(&[2, 3]));
    assert_eq!(descriptions(&check), vec![INTO_SCALAR_FAILED.to_string()]);
    assert!(check.message().unwrap().contains("Current tensor has 6 elements"));
}

#[test]
fn permute_always_passes() {
    assert!(TensorCheck::permute(&shape(&[2, 3]), &vec![1, 0]).is_ok());
}

#[test]
fn flatten_reports_each_violation() {
    assert!(TensorCheck::flatten(3, 2, 0, 1).is_ok());
    let check = TensorCheck::flatten(2, 3, 3, 2);
    assert_eq!(
        descriptions(&check),
        vec![
            FLATTEN_START_AFTER_END.to_string(),
            FLATTEN_RANK_GROWS.to_string(),
            FLATTEN_END_OUT_OF_RANK.to_string(),
        ]
    );
    assert_eq!(ops_name(&check), "Flatten");
    let only_end = TensorCheck::flatten(2, 1, 0, 2);
    assert_eq!(descriptions(&only_end), vec![FLATTEN_END_OUT_OF_RANK.to_string()]);
}

#[test]
fn unsqueeze_cannot_lower_rank() {
    assert!(TensorCheck::unsqueeze(2, 3).is_ok());
    assert!(TensorCheck::unsqueeze(2, 2).is_ok());
    let check = TensorCheck::unsqueeze(3, 2);
    assert_eq!(descriptions(&check), vec![UNSQUEEZE_FAILED.to_string()]);
}

#[test]
fn swap_dims_needs_axes_within_rank() {
    assert!(TensorCheck::swap_dims(3, 0, 2).is_ok());
    let check = TensorCheck::swap_dims(3, 3, 0);
    assert_eq!(descriptions(&check), vec![SWAP_DIMS_FAILED.to_string()]);
    assert!(check.message().unwrap().contains("Swap dims (3, 0) on tensor with (3) dimensions."));
}

#[test]
fn matmul_checks_device_and_inner_sizes() {
    assert!(TensorCheck::matmul(&shape(&[2, 3]), &Device::Cpu, &shape(&[3, 4]), &Device::Cpu).is_ok());
    let check = TensorCheck::matmul(&shape(&[2, 3]), &Device::Cpu, &shape(&[4, 5]), &Device::Unit(1));
    assert_eq!(
        descriptions(&check),
        vec![DEVICE_MISMATCH.to_string(), MATMUL_INNER_FAILED.to_string()]
    );
    assert_eq!(ops_name(&check), "Matmul");
    assert!(check.message().unwrap().contains("Inner sizes 3 and 4."));
}

#[test]
fn matmul_of_rank_one_checks_devices_only() {
    assert!(TensorCheck::matmul(&shape(&[3]), &Device::Cpu, &shape(&[4]), &Device::Cpu).is_ok());
}

#[test]
fn cat_checks_axis_list_and_shapes() {
    assert!(TensorCheck::cat(&vec![shape(&[2, 3]), shape(&[2, 5])], 1).is_ok());
    let empty = TensorCheck::cat(&vec![], 0);
    assert_eq!(descriptions(&empty), vec![CAT_EMPTY_FAILED.to_string()]);
    let bad_dim = TensorCheck::cat(&vec![shape(&[2, 3]), shape(&[2, 3])], 2);
    assert_eq!(descriptions(&bad_dim), vec![CAT_DIM_FAILED.to_string()]);
    let bad_shapes = TensorCheck::cat(&vec![shape(&[2, 3]), shape(&[3, 3])], 1);
    assert_eq!(descriptions(&bad_shapes), vec![CAT_SHAPES_FAILED.to_string()]);
    assert!(bad_shapes
        .message()
        .unwrap()
        .contains("Provided dimension (1), tensors shapes: [2, 3], [3, 3]"));
}

#[test]
fn index_range_law() {
    let check = TensorCheck::index(&shape(&[3, 5, 7]), &vec![0..2, 0..4, 1..8]);
    assert_eq!(descriptions(&check), vec![INDEX_EXCEEDS_FAILED.to_string()]);
    assert_eq!(ops_name(&check), "Index");
    let message = check.message().unwrap();
    assert!(message.contains("The range (1..8) exceeds the size of the tensor (7) at dimension 2."));
}

#[test]
fn index_checks_rank_and_empty_ranges() {
    assert!(TensorCheck::index(&shape(&[3, 5, 7]), &vec![0..3, 1..2]).is_ok());
    let check = TensorCheck::index(&shape(&[3, 5]), &vec![0..1, 0..1, 0..1]);
    assert_eq!(descriptions(&check), vec![INDEX_RANK_FAILED.to_string()]);
    let empty = TensorCheck::index(&shape(&[3, 5]), &vec![2..2]);
    assert_eq!(descriptions(&empty), vec![INDEX_EMPTY_FAILED.to_string()]);
}

#[test]
fn index_assign_size_law() {
    let fits = TensorCheck::index_assign(&shape(&[4, 3]), &shape(&[2, 3]), &vec![0..2]);
    assert!(fits.is_ok());
    for size in [1usize, 3, 4] {
        let check = TensorCheck::index_assign(&shape(&[4, 3]), &shape(&[size, 3]), &vec![0..2]);
        assert_eq!(descriptions(&check), vec![INDEX_VALUE_FAILED.to_string()]);
        assert_eq!(ops_name(&check), "Index Assign");
    }
}

#[test]
fn index_assign_reports_all_read_violations_too() {
    let check = TensorCheck::index_assign(&shape(&[4, 3]), &shape(&[1, 3]), &vec![3..6]);
    assert_eq!(
        descriptions(&check),
        vec![INDEX_EXCEEDS_FAILED.to_string(), INDEX_VALUE_FAILED.to_string()]
    );
    let reversed = TensorCheck::index_assign(&shape(&[4, 3]), &shape(&[1, 3]), &vec![3..1]);
    assert_eq!(
        descriptions(&reversed),
        vec![INDEX_VALUE_FAILED.to_string(), INDEX_EMPTY_FAILED.to_string()]
    );
}

#[test]
fn aggregate_dim_needs_axis_within_rank() {
    assert!(TensorCheck::aggregate_dim("Sum", 2, 1).is_ok());
    let check = TensorCheck::aggregate_dim("Mean", 2, 2);
    assert_eq!(descriptions(&check), vec![AGGREGATE_DIM_FAILED.to_string()]);
    assert_eq!(ops_name(&check), "Mean");
}

#[test]
fn failed_check_formats_every_violation() {
    let failed = FailedTensorCheck {
        ops: "Test".to_string(),
        errors: vec![
            TensorError::new("First."),
            TensorError::new("Second.").details("More.".to_string()),
        ],
    };
    assert_eq!(
        failed.format(),
        "=== Tensor Operation Error ===\n  Operation: 'Test'\n  Reason:\n    1. First. \n    2. Second. More. \n"
    );
}

#[test]
fn tensor_error_formats_its_number() {
    let error = TensorError::new("Broken.").details("Details.".to_string());
    assert_eq!(error.format(12), "\n    12. Broken. Details. ");
    assert_eq!(TensorError::new("Plain.").format(3), "\n    3. Plain. ");
}

fn details(check: &TensorCheck) -> Vec<Option<String>> {
    match check {
        TensorCheck::Passed => vec![],
        TensorCheck::Failed(failed) => failed.errors.iter().map(|e| e.details.clone()).collect(),
    }
}

#[test]
fn violation_details_name_the_offending_values() {
    let broadcast = TensorCheck::binary_ops_ew_shape(
        TensorCheck::Passed,
        "TestOps",
        &shape(&[3, 5]),
        &shape(&[3, 6]),
    );
    assert_eq!(
        details(&broadcast),
        vec![Some(
            "Incompatible size at dimension '1' => '5 != 6', which can't be broadcasted. Lhs tensor shape [3, 5], Rhs tensor shape [3, 6]."
                .to_string()
        )]
    );
    let matmul = TensorCheck::matmul(&shape(&[2, 3]), &Device::Unit(5), &shape(&[4, 5]), &Device::Unit(8));
    assert_eq!(
        details(&matmul),
        vec![
            Some("Lhs tensor device Unit(5), Rhs tensor device Unit(8).".to_string()),
            Some("Inner sizes 3 and 4. Lhs shape [2, 3], rhs shape [4, 5].".to_string()),
        ]
    );
    let scalar = TensorCheck::into_scalar(&shape(&[2, 3]));
    assert_eq!(details(&scalar), vec![Some("Current tensor has 6 elements".to_string())]);
    let index = TensorCheck::index(&shape(&[3, 5]), &vec![2..2]);
    assert_eq!(
        details(&index),
        vec![Some(
            "The range at dimension '0' starts at '2' and is greater or equal to its end '2'. Tensor shape [3, 5], provided indexes [2..2]."
                .to_string()
        )]
    );
    let empty = TensorCheck::cat(&vec![], 0);
    assert_eq!(details(&empty), vec![None]);
}

#[test]
fn later_checks_keep_earlier_violations() {
    let first = TensorCheck::binary_ops_device(TensorCheck::Passed, "Add", &Device::Cpu, &Device::Unit(2));
    let both = first.binary_ops_ew_shape("Add", &shape(&[2]), &shape(&[3]));
    assert_eq!(
        details(&both)[0],
        Some("Lhs tensor device Cpu, Rhs tensor device Unit(2).".to_string())
    );
    assert_eq!(descriptions(&both), vec![DEVICE_MISMATCH.to_string(), INCOMPATIBLE_SHAPES.to_string()]);
}
