use agentir_core::diagnostics::ErrorCode;
use agentir_core::memory::scalar_alignment;
use agentir_core::memory_ir::{
    contiguous_strides, element_bytes, insert_sorted_unique, is_power_of_two, position_of, stride_product,
    MemoryStride,
};
use agentir_core::resources::budget_against;
use agentir_core::types::{DimExpr, ScalarType, Shape};

fn static_values(strides: &[MemoryStride]) -> Vec<Option<u64>> {
    strides
        .iter()
        .map(|s| match s {
            MemoryStride::Static { value } => Some(*value),
            MemoryStride::Product { .. } => None,
        })
        .collect()
}

#[test]
fn element_sizes_and_alignments() {
    assert_eq!(element_bytes(ScalarType::Bool), 1);
    assert_eq!(element_bytes(ScalarType::I32), 4);
    assert_eq!(element_bytes(ScalarType::F32), 4);
    assert_eq!(element_bytes(ScalarType::Index), 8);
    assert_eq!(scalar_alignment(ScalarType::Bool), 1);
    assert_eq!(scalar_alignment(ScalarType::F32), 4);
    assert_eq!(scalar_alignment(ScalarType::Index), 8);
}

#[test]
fn powers_of_two() {
    assert!(!is_power_of_two(0));
    assert!(is_power_of_two(1));
    assert!(is_power_of_two(2));
    assert!(is_power_of_two(64));
    assert!(!is_power_of_two(96));
    assert!(is_power_of_two(1 << 63));
    assert!(!is_power_of_two(u64::MAX));
}

#[test]
fn static_row_major_strides() {
    let shape = Shape(vec![DimExpr::Static(2), DimExpr::Static(3), DimExpr::Static(4)]);
    let strides = contiguous_strides(&shape).unwrap();
    assert_eq!(static_values(&strides.entries), vec![Some(12), Some(4), Some(1)]);
}

#[test]
fn symbolic_inner_extent_gives_a_product_stride() {
    let shape = Shape(vec![DimExpr::Static(2), DimExpr::Symbol("n".to_string())]);
    let strides = contiguous_strides(&shape).unwrap();
    match &strides.entries[0] {
        MemoryStride::Product { factors } => {
            assert_eq!(factors.len(), 1);
            assert!(matches!(&factors[0], DimExpr::Symbol(s) if s == "n"));
        }
        other => panic!("expected a product stride, got {other:?}"),
    }
    assert!(matches!(strides.entries[1], MemoryStride::Static { value: 1 }));
}

#[test]
fn zero_extent_is_an_invalid_layout() {
    let shape = Shape(vec![DimExpr::Static(3), DimExpr::Static(0)]);
    let error = contiguous_strides(&shape).unwrap_err();
    assert_eq!(error.code, ErrorCode::InvalidMemoryLayout);
    let error = stride_product(&[DimExpr::Static(0)]).unwrap_err();
    assert_eq!(error.code, ErrorCode::InvalidMemoryLayout);
}

#[test]
fn stride_overflow_is_an_invalid_layout() {
    let error = stride_product(&[DimExpr::Static(u64::MAX), DimExpr::Static(2)]).unwrap_err();
    assert_eq!(error.code, ErrorCode::InvalidMemoryLayout);
    assert!(matches!(stride_product(&[]).unwrap(), MemoryStride::Static { value: 1 }));
    assert!(matches!(
        stride_product(&[DimExpr::Static(5), DimExpr::Static(7)]).unwrap(),
        MemoryStride::Static { value: 35 }
    ));
}

#[test]
fn sorted_unique_insertion() {
    let mut v = vec![1, 4, 9];
    insert_sorted_unique(&mut v, 5);
    assert_eq!(v, vec![1, 4, 5, 9]);
    insert_sorted_unique(&mut v, 4);
    assert_eq!(v, vec![1, 4, 5, 9]);
    insert_sorted_unique(&mut v, 0);
    insert_sorted_unique(&mut v, 12);
    assert_eq!(v, vec![0, 1, 4, 5, 9, 12]);
}

#[test]
fn positions_by_content() {
    let ids = vec!["iop2".to_string(), "iop1".to_string(), "iop7".to_string()];
    assert_eq!(position_of(&ids, "iop1"), Some(1));
    assert_eq!(position_of(&ids, "iop7"), Some(2));
    assert_eq!(position_of(&ids, "iop3"), None);
}

#[test]
fn budgets_reject_only_excess() {
    assert!(budget_against(3, 3, "buffers").is_ok());
    let error = budget_against(3, 4, "buffers").unwrap_err();
    assert_eq!(error.code, ErrorCode::ResourceLimitExceeded);
    assert_eq!(error.message, "buffers");
}
