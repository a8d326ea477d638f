use agentir_core::dependency::{reachable_impl_operations, reachable_operations};
use agentir_core::diagnostics::ErrorCode;
use agentir_core::idmap::IdMap;
use agentir_core::impl_ir::{ImplOperation, ImplOutput, ImplProgram, ImplSourceLink, ImplValue, ImplValueOrigin};
use agentir_core::ir::Opcode;
use agentir_core::types::{ScalarType, Type};

fn scalar() -> Type {
    Type::Scalar(ScalarType::I32)
}

fn link() -> ImplSourceLink {
    ImplSourceLink { spec_operation: None, spec_value: None, rewrite_rule: None }
}

fn op(id: &str, opcode: Opcode, operands: &[&str], result: &str) -> ImplOperation {
    ImplOperation {
        id: id.to_string(),
        opcode,
        operands: operands.iter().map(|s| s.to_string()).collect(),
        results: vec![result.to_string()],
        attributes: IdMap::new(),
        region: None,
        result_types: vec![scalar()],
        source_link: link(),
    }
}

fn program(ops: Vec<(ImplOperation, &str)>, parameters: &[(&str, &str)], outputs: &[(&str, &str)]) -> ImplProgram {
    let mut operations = IdMap::new();
    let mut values = IdMap::new();
    let mut order = Vec::new();
    for (o, v) in ops {
        values.insert(
            v.to_string(),
            ImplValue { id: v.to_string(), ty: scalar(), origin: ImplValueOrigin::Operation(o.id.clone()), name: None, source_link: link() },
        );
        order.push(o.id.clone());
        operations.insert(o.id.clone(), o);
    }
    let mut params = IdMap::new();
    for (name, v) in parameters {
        params.insert(name.to_string(), v.to_string());
    }
    let mut outs = IdMap::new();
    for (name, v) in outputs {
        outs.insert(name.to_string(), ImplOutput { name: name.to_string(), value: v.to_string(), ty: scalar() });
    }
    ImplProgram {
        dimensions: IdMap::new(),
        operations,
        operation_order: order,
        values,
        parameters: params,
        constants: IdMap::new(),
        outputs: outs,
        constraints: Vec::new(),
        numeric_contract: serde_json::Value::Null,
    }
}

#[test]
fn reachable_operations_exclude_dead_nodes_and_rank_dependencies_first() {
    let p = program(
        vec![
            (op("iop1", Opcode::Parameter, &[], "iv1"), "iv1"),
            (op("iop2", Opcode::Add, &["iv1", "iv1"], "iv2"), "iv2"),
            (op("iop3", Opcode::Constant, &[], "iv3"), "iv3"),
        ],
        &[("x", "iv1")],
        &[("y", "iv2")],
    );
    let reached = reachable_impl_operations(&p).unwrap();
    assert_eq!(reached.len(), 2);
    let first = *reached.get("iop1").unwrap();
    let second = *reached.get("iop2").unwrap();
    assert!(first < second);
    assert!(reached.get("iop3").is_none());
}

#[test]
fn a_dependency_cycle_is_rejected() {
    let p = program(
        vec![
            (op("iop1", Opcode::Add, &["iv2", "iv2"], "iv1"), "iv1"),
            (op("iop2", Opcode::Add, &["iv1", "iv1"], "iv2"), "iv2"),
        ],
        &[],
        &[("y", "iv1")],
    );
    let error = reachable_impl_operations(&p).unwrap_err();
    assert_eq!(error.code, ErrorCode::MemoryEquivalenceUnproved);
}

#[test]
fn a_missing_operand_is_rejected() {
    let p = program(vec![(op("iop1", Opcode::Add, &["iv9", "iv9"], "iv1"), "iv1")], &[], &[("y", "iv1")]);
    let error = reachable_impl_operations(&p).unwrap_err();
    assert_eq!(error.code, ErrorCode::MemoryEquivalenceUnproved);
}

#[test]
fn a_program_without_roots_reaches_nothing() {
    let p = program(vec![(op("iop1", Opcode::Constant, &[], "iv1"), "iv1")], &[], &[]);
    assert_eq!(reachable_impl_operations(&p).unwrap().len(), 0);
}

#[test]
fn candidate_reachability_reports_implementation_failures() {
    let p = program(
        vec![
            (op("iop1", Opcode::Add, &["iv2", "iv2"], "iv1"), "iv1"),
            (op("iop2", Opcode::Add, &["iv1", "iv1"], "iv2"), "iv2"),
        ],
        &[],
        &[("y", "iv1")],
    );
    assert_eq!(reachable_operations(&p).unwrap_err().code, ErrorCode::ImplVerificationFailed);
    let p = program(vec![(op("iop1", Opcode::Parameter, &[], "iv1"), "iv1")], &[("x", "iv1")], &[]);
    assert_eq!(reachable_operations(&p).unwrap().len(), 1);
}
