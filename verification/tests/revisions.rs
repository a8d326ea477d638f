use agentir_core::holes::{ExpectedEffects, Hole, HoleStatus};
use agentir_core::idmap::IdMap;
use agentir_core::ir::{Opcode, Operation, Program, ValueDef, ValueOrigin};
use agentir_core::obligations::{ObligationKind, ObligationOrigin, ObligationStatus, ProofObligation};
use agentir_core::revision::{diff, Revision, StatusSummary};
use agentir_core::types::{ScalarType, Type};

fn scalar() -> Type {
    Type::Scalar(ScalarType::F32)
}

fn operation(id: &str, opcode: Opcode, operands: &[&str], result: &str) -> Operation {
    Operation {
        id: id.to_string(),
        opcode,
        operands: operands.iter().map(|s| s.to_string()).collect(),
        results: vec![result.to_string()],
        attributes: IdMap::new(),
        region: None,
        provenance: "a1".to_string(),
        result_types: vec![scalar()],
    }
}

fn value(id: &str, op: &str) -> ValueDef {
    ValueDef { id: id.to_string(), ty: scalar(), origin: ValueOrigin::Operation(op.to_string()), name: None }
}

fn hole(id: &str, status: HoleStatus) -> Hole {
    Hole {
        id: id.to_string(),
        placeholder: format!("{id}_value"),
        expected_type: scalar(),
        expected_effects: ExpectedEffects::Pure,
        shape_constraints: Vec::new(),
        status,
        provenance: "a1".to_string(),
        filled_with: None,
    }
}

fn obligation(id: &str, status: ObligationStatus) -> ProofObligation {
    ProofObligation {
        id: id.to_string(),
        kind: ObligationKind::HoleFilled,
        proposition: serde_json::Value::Null,
        shape_compatibility: None,
        origin: ObligationOrigin { revision: None, action: "a1".to_string() },
        status,
        discharge_methods: Vec::new(),
    }
}

fn program(ops: &[(&str, &str)], outputs: &[(&str, &str)], frozen: bool) -> Program {
    let mut operations = IdMap::new();
    let mut values = IdMap::new();
    let mut order = Vec::new();
    for (op, v) in ops {
        operations.insert(op.to_string(), operation(op, Opcode::Parameter, &[], v));
        values.insert(v.to_string(), value(v, op));
        order.push(op.to_string());
    }
    let mut out = IdMap::new();
    for (name, v) in outputs {
        out.insert(name.to_string(), v.to_string());
    }
    Program {
        dimensions: IdMap::new(),
        dimension_names: IdMap::new(),
        operations,
        operation_order: order,
        values,
        parameters: IdMap::new(),
        constants: IdMap::new(),
        outputs: out,
        holes: IdMap::new(),
        constraints: Vec::new(),
        obligations: IdMap::new(),
        numeric_contract: serde_json::Value::Null,
        frozen,
    }
}

fn revision(id: &str, program: Program) -> Revision {
    let status = StatusSummary::from_program(&program);
    Revision {
        id: id.to_string(),
        parents: Vec::new(),
        content_hash: String::new(),
        spec_hash: None,
        semantic_canonical_version: None,
        program,
        applied_transaction: None,
        created_at_unix_ms: 0,
        status,
    }
}

#[test]
fn summary_counts_values_operations_and_open_work() {
    let mut p = program(&[("op1", "v1"), ("op2", "v2")], &[("y", "v2")], true);
    p.holes.insert("h1".to_string(), hole("h1", HoleStatus::Open));
    p.holes.insert("h2".to_string(), hole("h2", HoleStatus::Filled));
    p.holes.insert("h3".to_string(), hole("h3", HoleStatus::Open));
    p.obligations.insert("o1".to_string(), obligation("o1", ObligationStatus::Proved));
    p.obligations.insert("o2".to_string(), obligation("o2", ObligationStatus::Open));
    let s = StatusSummary::from_program(&p);
    assert_eq!(
        s,
        StatusSummary { values: 2, operations: 2, open_holes: 2, open_obligations: 1, frozen: true }
    );
}

#[test]
fn summary_of_an_empty_program() {
    let s = StatusSummary::from_program(&program(&[], &[], false));
    assert_eq!(
        s,
        StatusSummary { values: 0, operations: 0, open_holes: 0, open_obligations: 0, frozen: false }
    );
}

#[test]
fn diff_lists_added_and_removed_ids_in_order() {
    let from = revision("r1", program(&[("op1", "v1"), ("op2", "v2")], &[("y", "v1")], false));
    let to = revision("r2", program(&[("op2", "v2"), ("op3", "v3"), ("op4", "v4")], &[("y", "v1")], false));
    let d = diff(&from, &to);
    assert_eq!(d.from, "r1");
    assert_eq!(d.to, "r2");
    assert_eq!(d.operations_added, vec!["op3".to_string(), "op4".to_string()]);
    assert_eq!(d.operations_removed, vec!["op1".to_string()]);
    assert_eq!(d.values_added, vec!["v3".to_string(), "v4".to_string()]);
    assert_eq!(d.values_removed, vec!["v1".to_string()]);
    assert!(d.holes_added.is_empty() && d.holes_removed.is_empty());
    assert_eq!(d.outputs_changed.len(), 0);
    assert!(!d.frozen_changed);
}

#[test]
fn diff_reports_changed_added_and_removed_outputs() {
    let from = revision("r1", program(&[], &[("a", "v1"), ("b", "v2"), ("c", "v3")], false));
    let to = revision("r2", program(&[], &[("b", "v2"), ("c", "v4"), ("d", "v5")], true));
    let d = diff(&from, &to);
    assert_eq!(d.outputs_changed.len(), 3);
    assert_eq!(d.outputs_changed.get("a"), Some(&(Some("v1".to_string()), None)));
    assert_eq!(d.outputs_changed.get("b"), None);
    assert_eq!(d.outputs_changed.get("c"), Some(&(Some("v3".to_string()), Some("v4".to_string()))));
    assert_eq!(d.outputs_changed.get("d"), Some(&(None, Some("v5".to_string()))));
    assert!(d.frozen_changed);
}

#[test]
fn diff_of_a_revision_with_itself_is_empty() {
    let a = revision("r1", program(&[("op1", "v1")], &[("y", "v1")], false));
    let b = revision("r1", program(&[("op1", "v1")], &[("y", "v1")], false));
    let d = diff(&a, &b);
    assert!(d.operations_added.is_empty() && d.operations_removed.is_empty());
    assert!(d.values_added.is_empty() && d.values_removed.is_empty());
    assert_eq!(d.outputs_changed.len(), 0);
    assert!(!d.frozen_changed);
}
