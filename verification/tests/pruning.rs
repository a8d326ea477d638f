use agentir_core::dependency::reachable_impl_operations;
use agentir_core::diagnostics::ErrorCode;
use agentir_core::idmap::IdMap;
use agentir_core::impl_ir::{ImplOperation, ImplOutput, ImplProgram, ImplSourceLink, ImplValue, ImplValueOrigin};
use agentir_core::ir::{ConstantValue, Opcode};
use agentir_core::prune::prune_unreachable;
use agentir_core::types::{ScalarType, Type};

fn scalar() -> Type {
    Type::Scalar(ScalarType::I32)
}

fn link() -> ImplSourceLink {
    ImplSourceLink { spec_operation: None, spec_value: None, rewrite_rule: None }
}

fn op(id: &str, opcode: Opcode, operands: &[&str], result: &str) -> ImplOperation {
    ImplOperation {
        id: id.to_string(),
        opcode,
        operands: operands.iter().map(|s| s.to_string()).collect(),
        results: vec![result.to_string()],
        attributes: IdMap::new(),
        region: None,
        result_types: vec![scalar()],
        source_link: link(),
    }
}

fn program(ops: Vec<(ImplOperation, &str)>, parameters: &[(&str, &str)], outputs: &[(&str, &str)]) -> ImplProgram {
    let mut operations = IdMap::new();
    let mut values = IdMap::new();
    let mut order = Vec::new();
    for (o, v) in ops {
        values.insert(
            v.to_string(),
            ImplValue { id: v.to_string(), ty: scalar(), origin: ImplValueOrigin::Operation(o.id.clone()), name: None, source_link: link() },
        );
        order.push(o.id.clone());
        operations.insert(o.id.clone(), o);
    }
    let mut params = IdMap::new();
    for (name, v) in parameters {
        params.insert(name.to_string(), v.to_string());
    }
    let mut outs = IdMap::new();
    for (name, v) in outputs {
        outs.insert(name.to_string(), ImplOutput { name: name.to_string(), value: v.to_string(), ty: scalar() });
    }
    ImplProgram {
        dimensions: IdMap::new(),
        operations,
        operation_order: order,
        values,
        parameters: params,
        constants: IdMap::new(),
        outputs: outs,
        constraints: Vec::new(),
        numeric_contract: serde_json::Value::Null,
    }
}


fn with_dead_constant() -> ImplProgram {
    let mut p = program(
        vec![
            (op("iop1", Opcode::Parameter, &[], "iv1"), "iv1"),
            (op("iop2", Opcode::Add, &["iv1", "iv1"], "iv2"), "iv2"),
            (op("iop3", Opcode::Constant, &[], "iv3"), "iv3"),
        ],
        &[("x", "iv1")],
        &[("y", "iv2")],
    );
    p.constants.insert("iv3".to_string(), ConstantValue::I32 { value: 7 });
    p
}

#[test]
fn pruning_removes_unreachable_operations_with_their_values_and_constants() {
    let mut p = with_dead_constant();
    let conditions = prune_unreachable(&mut p, "iop3").unwrap();
    assert_eq!(conditions, vec!["target and removed nodes are output-unreachable".to_string()]);
    assert_eq!(p.operations.len(), 2);
    assert!(p.operations.get("iop3").is_none());
    assert_eq!(p.operation_order, vec!["iop1".to_string(), "iop2".to_string()]);
    assert!(p.values.get("iv3").is_none());
    assert!(p.values.get("iv2").is_some());
    assert_eq!(p.constants.len(), 0);
    assert_eq!(p.outputs.len(), 1);
}

#[test]
fn pruning_refuses_a_reachable_or_missing_target() {
    let mut p = with_dead_constant();
    assert_eq!(prune_unreachable(&mut p, "iop2").unwrap_err().code, ErrorCode::RewriteNotApplicable);
    assert_eq!(prune_unreachable(&mut p, "iop9").unwrap_err().code, ErrorCode::RewriteNotApplicable);
    assert_eq!(p.operations.len(), 3);
    assert_eq!(p.constants.len(), 1);
}

#[test]
fn pruning_refuses_a_cyclic_implementation() {
    let mut p = program(vec![(op("iop1", Opcode::Add, &["iv1"], "iv1"), "iv1")], &[], &[("y", "iv1")]);
    assert_eq!(prune_unreachable(&mut p, "iop1").unwrap_err().code, ErrorCode::ImplVerificationFailed);
}

#[test]
fn pruning_keeps_the_reachable_operations() {
    let mut p = with_dead_constant();
    let before = reachable_impl_operations(&p).unwrap();
    prune_unreachable(&mut p, "iop3").unwrap();
    let after = reachable_impl_operations(&p).unwrap();
    assert_eq!(before.len(), after.len());
    assert!(after.get("iop1").is_some() && after.get("iop2").is_some());
    assert_eq!(p.operations.get("iop2").unwrap().operands, vec!["iv1".to_string(), "iv1".to_string()]);
}
