use agentir_core::backend_check::verify_backend_program;
use agentir_core::backend_ir::{
    BackendBinding, BackendBindingAccess, BackendDispatch, BackendExpression, BackendExtent, BackendGuardBranch,
    BackendGuardPredicate, BackendKernel, BackendParameterBlock, BackendParameterEntry, BackendParameterType,
    BackendProgram, BackendStatement, BackendValue,
};
use agentir_core::diagnostics::ErrorCode;
use agentir_core::idmap::IdMap;
use agentir_core::types::{DimExpr, ScalarType, Shape};

fn binding(number: u32, alignment: u64) -> BackendBinding {
    BackendBinding {
        group: 0,
        binding: number,
        buffer: format!("buf{number}"),
        external_name: None,
        element_type: ScalarType::F32,
        shape: Shape(vec![DimExpr::Static(4)]),
        access: BackendBindingAccess::Read,
        alignment,
        offset_elements: 0,
    }
}

fn kernel(id: &str, nodes: &[&str]) -> BackendKernel {
    let mut values = IdMap::new();
    values.insert(
        "bv1".to_string(),
        BackendValue { id: "bv1".to_string(), expression: BackendExpression::InvocationIndex, ty: ScalarType::Index },
    );
    BackendKernel {
        id: id.to_string(),
        entry_point: format!("main_{id}"),
        source_schedule_nodes: nodes.iter().map(|s| s.to_string()).collect(),
        bindings: vec![binding(0, 4), binding(1, 4)],
        parameter_block: BackendParameterBlock { group: 0, binding: 2, entries: Vec::new(), byte_size: 0 },
        workgroup_size: [64, 1, 1],
        logical_extent: BackendExtent::Static { value: 4 },
        serial: false,
        vector_width: 1,
        unroll_factor: 1,
        values,
        statements: vec![BackendStatement::Store { binding: 1, index: "bv1".to_string(), value: "bv1".to_string() }],
        outputs: Vec::new(),
        lowering_method: "structural".to_string(),
    }
}

fn dispatch(order: u64, kernel: &str) -> BackendDispatch {
    BackendDispatch {
        order,
        kernel: kernel.to_string(),
        workgroups: [BackendExtent::Static { value: 1 }, BackendExtent::Static { value: 1 }, BackendExtent::Static { value: 1 }],
        workgroup_size: [64, 1, 1],
        bounds_checked: true,
    }
}

fn program() -> BackendProgram {
    let mut kernels = IdMap::new();
    kernels.insert("bk1".to_string(), kernel("bk1", &["sn1", "sn2"]));
    kernels.insert("bk2".to_string(), kernel("bk2", &["sn3"]));
    BackendProgram {
        kernels,
        kernel_order: vec!["bk1".to_string(), "bk2".to_string()],
        dispatches: vec![dispatch(0, "bk1"), dispatch(1, "bk2")],
        guard: None,
        outputs: Vec::new(),
    }
}

fn nodes(ids: &[&str]) -> Vec<String> {
    ids.iter().map(|s| s.to_string()).collect()
}

#[test]
fn a_well_formed_backend_program_verifies() {
    assert!(verify_backend_program(&program(), &nodes(&["sn1", "sn2", "sn3"])).is_ok());
}

#[test]
fn coverage_must_match_the_schedule_in_order() {
    let error = verify_backend_program(&program(), &nodes(&["sn3", "sn1", "sn2"])).unwrap_err();
    assert_eq!(error.code, ErrorCode::BackendCoverageInvalid);
    let mut p = program();
    p.kernel_order = vec!["bk1".to_string(), "bk1".to_string()];
    assert_eq!(verify_backend_program(&p, &nodes(&["sn1", "sn2", "sn1", "sn2"])).unwrap_err().code, ErrorCode::BackendCoverageInvalid);
}

#[test]
fn kernel_defects_are_classified() {
    let expected = nodes(&["sn1", "sn2", "sn3"]);
    let mut p = program();
    p.kernels.insert("bk2".to_string(), BackendKernel { vector_width: 3, ..kernel("bk2", &["sn3"]) });
    assert_eq!(verify_backend_program(&p, &expected).unwrap_err().code, ErrorCode::BackendDispatchInvalid);
    let mut p = program();
    p.kernels.insert("bk2".to_string(), BackendKernel { workgroup_size: [u32::MAX, u32::MAX, 2], ..kernel("bk2", &["sn3"]) });
    assert_eq!(verify_backend_program(&p, &expected).unwrap_err().code, ErrorCode::BackendDispatchInvalid);
    let mut p = program();
    p.kernels.insert("bk2".to_string(), BackendKernel { bindings: vec![binding(0, 4), binding(0, 4)], ..kernel("bk2", &["sn3"]) });
    assert_eq!(verify_backend_program(&p, &expected).unwrap_err().code, ErrorCode::BackendBindingInvalid);
    let mut p = program();
    p.kernels.insert("bk2".to_string(), BackendKernel { bindings: vec![binding(0, 12)], ..kernel("bk2", &["sn3"]) });
    assert_eq!(verify_backend_program(&p, &expected).unwrap_err().code, ErrorCode::BackendBindingInvalid);
    let mut p = program();
    let block = BackendParameterBlock {
        group: 0,
        binding: 1,
        entries: vec![BackendParameterEntry { name: "n".to_string(), ty: BackendParameterType::U32, offset: 0, size: 4 }],
        byte_size: 16,
    };
    p.kernels.insert("bk2".to_string(), BackendKernel { parameter_block: block, ..kernel("bk2", &["sn3"]) });
    assert_eq!(verify_backend_program(&p, &expected).unwrap_err().code, ErrorCode::BackendBindingInvalid);
    let mut p = program();
    let nested = BackendStatement::IfBounds {
        predicate: "bv1".to_string(),
        body: vec![BackendStatement::Store { binding: 1, index: "bv1".to_string(), value: "bv9".to_string() }],
    };
    p.kernels.insert("bk2".to_string(), BackendKernel { statements: vec![nested], ..kernel("bk2", &["sn3"]) });
    assert_eq!(verify_backend_program(&p, &expected).unwrap_err().code, ErrorCode::BackendDispatchInvalid);
}

#[test]
fn dispatches_and_guards_must_be_complete() {
    let expected = nodes(&["sn1", "sn2", "sn3"]);
    let mut p = program();
    p.dispatches = vec![dispatch(0, "bk1"), dispatch(2, "bk2")];
    assert_eq!(verify_backend_program(&p, &expected).unwrap_err().code, ErrorCode::BackendDispatchInvalid);
    let mut p = program();
    p.guard = Some(BackendGuardBranch {
        predicate: BackendGuardPredicate::NoOverlap {
            first: "buf0".to_string(),
            second: "buf1".to_string(),
            bytes: BackendExtent::Static { value: 16 },
        },
        true_dispatches: vec![0],
        false_dispatches: vec![1],
    });
    assert!(verify_backend_program(&p, &expected).is_ok());
    if let Some(guard) = &mut p.guard {
        guard.false_dispatches = vec![5];
    }
    assert_eq!(verify_backend_program(&p, &expected).unwrap_err().code, ErrorCode::BackendDispatchInvalid);
}
