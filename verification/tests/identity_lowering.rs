use agentir_core::candidate::CandidateAllocator;
use agentir_core::diagnostics::ErrorCode;
use agentir_core::holes::{ExpectedEffects, Hole, HoleStatus};
use agentir_core::idmap::IdMap;
use agentir_core::impl_ir::{ImplSourceLink, ImplValueOrigin};
use agentir_core::ir::{ConstantValue, Opcode, Operation, Program, ValueDef, ValueOrigin};
use agentir_core::lowering::{identity_lower, impl_as_program, verify_source_link};
use agentir_core::types::{ScalarType, Type};

fn scalar() -> Type {
    Type::Scalar(ScalarType::I32)
}

fn operation(id: &str, opcode: Opcode, operands: &[&str], result: &str) -> Operation {
    Operation {
        id: id.to_string(),
        opcode,
        operands: operands.iter().map(|s| s.to_string()).collect(),
        results: vec![result.to_string()],
        attributes: IdMap::new(),
        region: None,
        provenance: "a1".to_string(),
        result_types: vec![scalar()],
    }
}

fn add_op(p: &mut Program, op: Operation) {
    let result = op.results[0].clone();
    p.values.insert(
        result.clone(),
        ValueDef { id: result.clone(), ty: scalar(), origin: ValueOrigin::Operation(op.id.clone()), name: Some(format!("n_{result}")) },
    );
    p.operation_order.push(op.id.clone());
    p.operations.insert(op.id.clone(), op);
}

fn frozen_program() -> Program {
    let mut p = Program {
        dimensions: IdMap::new(),
        dimension_names: IdMap::new(),
        operations: IdMap::new(),
        operation_order: Vec::new(),
        values: IdMap::new(),
        parameters: IdMap::new(),
        constants: IdMap::new(),
        outputs: IdMap::new(),
        holes: IdMap::new(),
        constraints: Vec::new(),
        obligations: IdMap::new(),
        numeric_contract: serde_json::Value::Null,
        frozen: true,
    };
    add_op(&mut p, operation("op1", Opcode::Parameter, &[], "v1"));
    add_op(&mut p, operation("op2", Opcode::Add, &["v1", "v1"], "v2"));
    add_op(&mut p, operation("op3", Opcode::Constant, &[], "v3"));
    p.constants.insert("v3".to_string(), ConstantValue::I32 { value: 9 });
    p.parameters.insert("x".to_string(), "v1".to_string());
    p.outputs.insert("y".to_string(), "v2".to_string());
    p
}

#[test]
fn lowering_copies_the_reachable_operations_dependency_first() {
    let source = frozen_program();
    let mut allocator = CandidateAllocator::new();
    let lowered = identity_lower(&source, &mut allocator).unwrap();
    assert_eq!(lowered.operation_order, vec!["iop1".to_string(), "iop2".to_string()]);
    assert_eq!(lowered.operations.len(), 2);
    let add = lowered.operations.get("iop2").unwrap();
    assert_eq!(add.opcode, Opcode::Add);
    assert_eq!(add.operands, vec!["iv1".to_string(), "iv1".to_string()]);
    assert_eq!(add.results, vec!["iv2".to_string()]);
    assert_eq!(add.source_link.spec_operation.as_deref(), Some("op2"));
    assert_eq!(add.source_link.spec_value.as_deref(), Some("v2"));
    let v = lowered.values.get("iv2").unwrap();
    assert!(matches!(&v.origin, ImplValueOrigin::Operation(o) if o == "iop2"));
    assert_eq!(v.name.as_deref(), Some("n_v2"));
    assert_eq!(lowered.values.len(), 2);
    assert_eq!(lowered.constants.len(), 0);
    assert_eq!(lowered.parameters.get("x").map(String::as_str), Some("iv1"));
    let y = lowered.outputs.get("y").unwrap();
    assert_eq!((y.name.as_str(), y.value.as_str()), ("y", "iv2"));
    assert_eq!(allocator.impl_operation(), "iop3");
    assert_eq!(allocator.impl_value(), "iv3");
}

#[test]
fn constants_and_filled_holes_are_followed() {
    let mut source = frozen_program();
    source.outputs.insert("k".to_string(), "v3".to_string());
    source.values.insert(
        "v4".to_string(),
        ValueDef { id: "v4".to_string(), ty: scalar(), origin: ValueOrigin::Hole("h1".to_string()), name: None },
    );
    source.holes.insert(
        "h1".to_string(),
        Hole {
            id: "h1".to_string(),
            placeholder: "v4".to_string(),
            expected_type: scalar(),
            expected_effects: ExpectedEffects::Pure,
            shape_constraints: Vec::new(),
            status: HoleStatus::Filled,
            provenance: "a1".to_string(),
            filled_with: Some("v2".to_string()),
        },
    );
    source.outputs.insert("z".to_string(), "v4".to_string());
    assert_eq!(source.resolve_filled_value("v4"), "v2");
    assert_eq!(source.resolve_filled_value("v1"), "v1");
    let mut allocator = CandidateAllocator::from_legacy_counters(0, 0, 10, 20, 0, 0);
    let lowered = identity_lower(&source, &mut allocator).unwrap();
    assert_eq!(lowered.operation_order, vec!["iop11".to_string(), "iop12".to_string(), "iop13".to_string()]);
    assert_eq!(lowered.operations.get("iop12").unwrap().source_link.spec_operation.as_deref(), Some("op3"));
    assert_eq!(lowered.outputs.get("z").unwrap().value, "iv23");
    assert_eq!(lowered.outputs.get("y").unwrap().value, "iv23");
    assert_eq!(lowered.outputs.get("k").unwrap().value, "iv22");
    assert!(matches!(lowered.constants.get("iv22"), Some(ConstantValue::I32 { value: 9 })));
    assert_eq!(lowered.constants.len(), 1);
}

#[test]
fn only_complete_frozen_specifications_lower() {
    let mut source = frozen_program();
    source.frozen = false;
    let mut allocator = CandidateAllocator::new();
    assert_eq!(identity_lower(&source, &mut allocator).unwrap_err().code, ErrorCode::SpecNotFrozen);
    let mut source = frozen_program();
    source.holes.insert(
        "h1".to_string(),
        Hole {
            id: "h1".to_string(),
            placeholder: "v9".to_string(),
            expected_type: scalar(),
            expected_effects: ExpectedEffects::Pure,
            shape_constraints: Vec::new(),
            status: HoleStatus::Open,
            provenance: "a1".to_string(),
            filled_with: None,
        },
    );
    assert_eq!(identity_lower(&source, &mut allocator).unwrap_err().code, ErrorCode::SpecNotFrozen);
    let mut source = frozen_program();
    source.outputs = IdMap::new();
    assert_eq!(identity_lower(&source, &mut allocator).unwrap_err().code, ErrorCode::SpecNotFrozen);
}

#[test]
fn missing_values_fail_the_lowering() {
    let mut source = frozen_program();
    source.outputs.insert("w".to_string(), "v9".to_string());
    let mut allocator = CandidateAllocator::new();
    assert_eq!(identity_lower(&source, &mut allocator).unwrap_err().code, ErrorCode::ImplVerificationFailed);
}

#[test]
fn an_implementation_reads_back_as_a_frozen_program() {
    let source = frozen_program();
    let mut allocator = CandidateAllocator::new();
    let mut lowered = identity_lower(&source, &mut allocator).unwrap();
    lowered.dimensions.insert("n".to_string(), true);
    lowered.dimensions.insert("m".to_string(), false);
    let program = impl_as_program(&lowered);
    assert!(program.frozen);
    assert_eq!(program.operations.len(), 2);
    assert_eq!(program.operations.get("iop2").unwrap().operands, vec!["iv1".to_string(), "iv1".to_string()]);
    assert_eq!(program.operations.get("iop2").unwrap().provenance, "impl");
    assert!(matches!(&program.values.get("iv2").unwrap().origin, ValueOrigin::Operation(o) if o == "iop2"));
    assert_eq!(program.outputs.get("y").map(String::as_str), Some("iv2"));
    assert_eq!(program.parameters.get("x").map(String::as_str), Some("iv1"));
    assert_eq!(program.dimension_names.get("m").map(String::as_str), Some("id1"));
    assert_eq!(program.dimension_names.get("n").map(String::as_str), Some("id2"));
    let d = program.dimensions.get("id2").unwrap();
    assert_eq!((d.name.as_str(), d.non_negative), ("n", true));
    assert_eq!(program.holes.len() + program.obligations.len(), 0);
}

#[test]
fn source_links_must_name_consistent_nodes() {
    let source = frozen_program();
    let link = |o: Option<&str>, v: Option<&str>, rule: Option<&str>| ImplSourceLink {
        spec_operation: o.map(str::to_string),
        spec_value: v.map(str::to_string),
        rewrite_rule: rule.map(str::to_string),
    };
    assert!(verify_source_link(&link(Some("op2"), Some("v2"), None), &source).is_ok());
    assert!(verify_source_link(&link(None, None, Some("eliminate_noop_cast")), &source).is_ok());
    assert_eq!(verify_source_link(&link(Some("op2"), Some("v1"), None), &source).unwrap_err().code, ErrorCode::ImplVerificationFailed);
    assert_eq!(verify_source_link(&link(Some("op9"), None, None), &source).unwrap_err().code, ErrorCode::ImplVerificationFailed);
    assert_eq!(verify_source_link(&link(None, Some("v9"), None), &source).unwrap_err().code, ErrorCode::ImplVerificationFailed);
    assert_eq!(verify_source_link(&link(None, None, None), &source).unwrap_err().code, ErrorCode::ImplVerificationFailed);
}
