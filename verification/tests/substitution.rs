use agentir_core::idmap::IdMap;
use agentir_core::impl_ir::{
    ImplOperation, ImplOutput, ImplProgram, ImplRegion, ImplRegionOperation, ImplRegionValue, ImplSourceLink, ImplValue,
    ImplValueOrigin,
};
use agentir_core::ir::Opcode;
use agentir_core::substitute::replace_value;
use agentir_core::types::{ScalarType, Type};

fn scalar() -> Type {
    Type::Scalar(ScalarType::I32)
}

fn link() -> ImplSourceLink {
    ImplSourceLink { spec_operation: None, spec_value: None, rewrite_rule: None }
}

fn op(id: &str, opcode: Opcode, operands: &[&str], result: &str) -> ImplOperation {
    ImplOperation {
        id: id.to_string(),
        opcode,
        operands: operands.iter().map(|s| s.to_string()).collect(),
        results: vec![result.to_string()],
        attributes: IdMap::new(),
        region: None,
        result_types: vec![scalar()],
        source_link: link(),
    }
}

fn program(ops: Vec<(ImplOperation, &str)>, parameters: &[(&str, &str)], outputs: &[(&str, &str)]) -> ImplProgram {
    let mut operations = IdMap::new();
    let mut values = IdMap::new();
    let mut order = Vec::new();
    for (o, v) in ops {
        values.insert(
            v.to_string(),
            ImplValue { id: v.to_string(), ty: scalar(), origin: ImplValueOrigin::Operation(o.id.clone()), name: None, source_link: link() },
        );
        order.push(o.id.clone());
        operations.insert(o.id.clone(), o);
    }
    let mut params = IdMap::new();
    for (name, v) in parameters {
        params.insert(name.to_string(), v.to_string());
    }
    let mut outs = IdMap::new();
    for (name, v) in outputs {
        outs.insert(name.to_string(), ImplOutput { name: name.to_string(), value: v.to_string(), ty: scalar() });
    }
    ImplProgram {
        dimensions: IdMap::new(),
        operations,
        operation_order: order,
        values,
        parameters: params,
        constants: IdMap::new(),
        outputs: outs,
        constraints: Vec::new(),
        numeric_contract: serde_json::Value::Null,
    }
}


#[test]
fn substitution_rewrites_operands_and_outputs() {
    let mut p = program(
        vec![
            (op("iop1", Opcode::Parameter, &[], "iv1"), "iv1"),
            (op("iop2", Opcode::Parameter, &[], "iv2"), "iv2"),
            (op("iop3", Opcode::Add, &["iv1", "iv2"], "iv3"), "iv3"),
        ],
        &[("a", "iv1"), ("b", "iv2")],
        &[("x", "iv1"), ("y", "iv3")],
    );
    replace_value(&mut p, "iv1", "iv2");
    assert_eq!(p.operations.get("iop3").unwrap().operands, vec!["iv2".to_string(), "iv2".to_string()]);
    assert_eq!(p.outputs.get("x").unwrap().value, "iv2");
    assert_eq!(p.outputs.get("x").unwrap().name, "x");
    assert_eq!(p.outputs.get("y").unwrap().value, "iv3");
    assert_eq!(p.operation_order.len(), 3);
    assert_eq!(p.values.len(), 3);
}

#[test]
fn substitution_rewrites_region_captures() {
    let mut p = program(
        vec![
            (op("iop1", Opcode::Parameter, &[], "iv1"), "iv1"),
            (op("iop2", Opcode::Parameter, &[], "iv2"), "iv2"),
            (op("iop3", Opcode::MapOp, &["iv2"], "iv3"), "iv3"),
        ],
        &[("a", "iv1"), ("b", "iv2")],
        &[("y", "iv3")],
    );
    let region = ImplRegion {
        arguments: Vec::new(),
        captures: vec!["iv1".to_string()],
        operations: vec![ImplRegionOperation {
            result: "t".to_string(),
            opcode: Opcode::Add,
            operands: vec![ImplRegionValue::Capture("iv1".to_string()), ImplRegionValue::Argument("e".to_string())],
            attributes: IdMap::new(),
            result_type: scalar(),
        }],
        yield_value: ImplRegionValue::Capture("iv1".to_string()),
        yield_type: scalar(),
    };
    let mut target = p.operations.remove("iop3").unwrap();
    target.region = Some(region);
    p.operations.insert("iop3".to_string(), target);
    replace_value(&mut p, "iv1", "iv9");
    let region = p.operations.get("iop3").unwrap().region.as_ref().unwrap();
    assert_eq!(region.captures, vec!["iv9".to_string()]);
    assert!(matches!(&region.operations[0].operands[0], ImplRegionValue::Capture(v) if v == "iv9"));
    assert!(matches!(&region.operations[0].operands[1], ImplRegionValue::Argument(v) if v == "e"));
    assert!(matches!(&region.yield_value, ImplRegionValue::Capture(v) if v == "iv9"));
}
