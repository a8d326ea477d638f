use agentir_core::diagnostics::ErrorCode;
use agentir_core::fold::{
    float_constant, fold_operand, fold_operation, fold_values, parse_f32_bits, ComparePredicate, FloatFold,
    FoldOutcome, FoldStep, FoldValue,
};
use agentir_core::idmap::IdMap;
use agentir_core::impl_ir::{ImplOperation, ImplProgram, ImplSourceLink, ImplValue, ImplValueOrigin};
use agentir_core::ir::{ConstantValue, Opcode};
use agentir_core::json::JsonLit;
use agentir_core::types::{ScalarType, Type};

fn value(v: &AgentResultOutcome) -> FoldOutcome {
    *v.as_ref().unwrap()
}

type AgentResultOutcome = Result<FoldOutcome, agentir_core::diagnostics::AgentError>;

#[test]
fn integer_arithmetic_is_checked() {
    assert_eq!(value(&fold_values(Opcode::Add, &[FoldValue::I32(2), FoldValue::I32(3)], "eq", None)), FoldOutcome::Value(FoldValue::I32(5)));
    assert_eq!(value(&fold_values(Opcode::Sub, &[FoldValue::I32(2), FoldValue::I32(3)], "eq", None)), FoldOutcome::Value(FoldValue::I32(-1)));
    assert_eq!(value(&fold_values(Opcode::Mul, &[FoldValue::I32(-4), FoldValue::I32(3)], "eq", None)), FoldOutcome::Value(FoldValue::I32(-12)));
    assert_eq!(value(&fold_values(Opcode::Div, &[FoldValue::I32(-7), FoldValue::I32(2)], "eq", None)), FoldOutcome::Value(FoldValue::I32(-3)));
    assert_eq!(value(&fold_values(Opcode::Fma, &[FoldValue::I32(3), FoldValue::I32(4), FoldValue::I32(5)], "eq", None)), FoldOutcome::Value(FoldValue::I32(17)));
    for (op, operands) in [
        (Opcode::Add, vec![FoldValue::I32(i32::MAX), FoldValue::I32(1)]),
        (Opcode::Sub, vec![FoldValue::I32(i32::MIN), FoldValue::I32(1)]),
        (Opcode::Mul, vec![FoldValue::I32(1 << 16), FoldValue::I32(1 << 16)]),
        (Opcode::Div, vec![FoldValue::I32(1), FoldValue::I32(0)]),
        (Opcode::Div, vec![FoldValue::I32(i32::MIN), FoldValue::I32(-1)]),
        (Opcode::Fma, vec![FoldValue::I32(i32::MAX), FoldValue::I32(2), FoldValue::I32(0)]),
    ] {
        let error = fold_values(op, &operands, "eq", None).unwrap_err();
        assert_eq!(error.code, ErrorCode::RewritePreconditionFailed);
    }
}

#[test]
fn comparisons_and_selection() {
    assert_eq!(value(&fold_values(Opcode::Compare, &[FoldValue::I32(2), FoldValue::I32(3)], "lt", None)), FoldOutcome::Value(FoldValue::Bool(true)));
    assert_eq!(value(&fold_values(Opcode::Compare, &[FoldValue::I32(2), FoldValue::I32(3)], "ge", None)), FoldOutcome::Value(FoldValue::Bool(false)));
    assert_eq!(value(&fold_values(Opcode::Compare, &[FoldValue::Bool(true), FoldValue::Bool(true)], "ne", None)), FoldOutcome::Value(FoldValue::Bool(false)));
    assert_eq!(
        fold_values(Opcode::Compare, &[FoldValue::Bool(true), FoldValue::Bool(false)], "lt", None).unwrap_err().code,
        ErrorCode::RewritePreconditionFailed
    );
    assert_eq!(
        fold_values(Opcode::Compare, &[FoldValue::I32(1), FoldValue::I32(1)], "approx", None).unwrap_err().code,
        ErrorCode::RewritePreconditionFailed
    );
    assert_eq!(value(&fold_values(Opcode::Select, &[FoldValue::Bool(false), FoldValue::I32(1), FoldValue::I32(2)], "eq", None)), FoldOutcome::Value(FoldValue::I32(2)));
    assert_eq!(
        fold_values(Opcode::Select, &[FoldValue::I32(0), FoldValue::I32(1), FoldValue::I32(2)], "eq", None).unwrap_err().code,
        ErrorCode::RewriteNotApplicable
    );
    assert_eq!(
        fold_values(Opcode::Compare, &[FoldValue::Bool(true), FoldValue::I32(1)], "eq", None).unwrap_err().code,
        ErrorCode::RewriteNotApplicable
    );
}

#[test]
fn binary32_work_is_handed_back() {
    let one = 0x3f80_0000;
    let two = 0x4000_0000;
    assert_eq!(value(&fold_values(Opcode::Add, &[FoldValue::F32(one), FoldValue::F32(two)], "eq", None)), FoldOutcome::Float(FloatFold::Add(one, two)));
    assert_eq!(
        value(&fold_values(Opcode::Compare, &[FoldValue::F32(one), FoldValue::F32(two)], "le", None)),
        FoldOutcome::Float(FloatFold::Compare(ComparePredicate::Le, one, two))
    );
    assert_eq!(
        fold_values(Opcode::Div, &[FoldValue::F32(one), FoldValue::F32(0x8000_0000)], "eq", None).unwrap_err().code,
        ErrorCode::RewritePreconditionFailed
    );
    assert_eq!(value(&fold_values(Opcode::Cast, &[FoldValue::I32(3)], "eq", Some("f32"))), FoldOutcome::Float(FloatFold::FromI32(3)));
    assert_eq!(value(&fold_values(Opcode::Cast, &[FoldValue::F32(one)], "eq", Some("index"))), FoldOutcome::Float(FloatFold::ToI32(one)));
    assert_eq!(value(&fold_values(Opcode::Cast, &[FoldValue::F32(one)], "eq", Some("f32"))), FoldOutcome::Value(FoldValue::F32(one)));
}

#[test]
fn casts_need_a_supported_target() {
    assert_eq!(value(&fold_values(Opcode::Cast, &[FoldValue::I32(3)], "eq", Some("index"))), FoldOutcome::Value(FoldValue::I32(3)));
    assert_eq!(fold_values(Opcode::Cast, &[FoldValue::I32(3)], "eq", Some("bool")).unwrap_err().code, ErrorCode::RewritePreconditionFailed);
    assert_eq!(fold_values(Opcode::Cast, &[FoldValue::I32(3)], "eq", None).unwrap_err().code, ErrorCode::RewritePreconditionFailed);
    assert_eq!(value(&fold_values(Opcode::Cast, &[FoldValue::Bool(true)], "eq", Some("bool"))), FoldOutcome::Value(FoldValue::Bool(true)));
    assert_eq!(fold_values(Opcode::Cast, &[FoldValue::Bool(true)], "eq", Some("i32")).unwrap_err().code, ErrorCode::RewriteNotApplicable);
}

#[test]
fn f32_bits_are_read_as_the_compiler_reads_them() {
    assert_eq!(parse_f32_bits("0x3f800000"), Some(0x3f80_0000));
    assert_eq!(parse_f32_bits("0x0x1"), Some(1));
    assert_eq!(parse_f32_bits("+ff"), Some(0xff));
    assert_eq!(parse_f32_bits("0xFFFFFFFF"), Some(u32::MAX));
    assert_eq!(parse_f32_bits("0x100000000"), None);
    assert_eq!(parse_f32_bits("0x"), None);
    assert_eq!(parse_f32_bits("0xg1"), None);
    assert_eq!(parse_f32_bits("-1"), None);
}

#[test]
fn constants_become_operands() {
    let f32_type = Type::Scalar(ScalarType::F32);
    let one = ConstantValue::F32 { bits: "0x3f800000".to_string() };
    assert_eq!(fold_operand(&one, &f32_type).unwrap(), FoldValue::F32(0x3f80_0000));
    let infinity = ConstantValue::F32 { bits: "0x7f800000".to_string() };
    assert_eq!(fold_operand(&infinity, &f32_type).unwrap_err().code, ErrorCode::RewritePreconditionFailed);
    let garbage = ConstantValue::F32 { bits: "one".to_string() };
    assert_eq!(fold_operand(&garbage, &f32_type).unwrap_err().code, ErrorCode::RewritePreconditionFailed);
    let index = ConstantValue::I32 { value: 4 };
    assert_eq!(fold_operand(&index, &Type::Scalar(ScalarType::Index)).unwrap(), FoldValue::I32(4));
    assert_eq!(fold_operand(&index, &f32_type).unwrap_err().code, ErrorCode::RewriteNotApplicable);
}

#[test]
fn evaluated_bits_become_constants() {
    match float_constant(0x4040_0000).unwrap() {
        ConstantValue::F32 { bits } => assert_eq!(bits, "0x40400000"),
        other => panic!("unexpected constant {other:?}"),
    }
    match float_constant(1).unwrap() {
        ConstantValue::F32 { bits } => assert_eq!(bits, "0x00000001"),
        other => panic!("unexpected constant {other:?}"),
    }
    assert_eq!(float_constant(0x7fc0_0000).unwrap_err().code, ErrorCode::RewritePreconditionFailed);
}

fn link() -> ImplSourceLink {
    ImplSourceLink { spec_operation: None, spec_value: None, rewrite_rule: None }
}

fn constant_program(opcode: Opcode, operands: &[(&str, ConstantValue, ScalarType)], predicate: Option<&str>) -> ImplProgram {
    let mut values = IdMap::new();
    let mut constants = IdMap::new();
    let mut operations = IdMap::new();
    for (i, (id, constant, ty)) in operands.iter().enumerate() {
        let op_id = format!("iop{}", i + 10);
        values.insert(
            id.to_string(),
            ImplValue { id: id.to_string(), ty: Type::Scalar(*ty), origin: ImplValueOrigin::Operation(op_id), name: None, source_link: link() },
        );
        constants.insert(id.to_string(), constant_clone(constant));
    }
    let mut attributes = IdMap::new();
    if let Some(p) = predicate {
        attributes.insert("predicate".to_string(), JsonLit::Text(p.to_string()));
    }
    operations.insert(
        "iop1".to_string(),
        ImplOperation {
            id: "iop1".to_string(),
            opcode,
            operands: operands.iter().map(|(id, _, _)| id.to_string()).collect(),
            results: vec!["iv1".to_string()],
            attributes,
            region: None,
            result_types: vec![Type::Scalar(ScalarType::I32)],
            source_link: link(),
        },
    );
    ImplProgram {
        dimensions: IdMap::new(),
        operations,
        operation_order: vec!["iop1".to_string()],
        values,
        parameters: IdMap::new(),
        constants,
        outputs: IdMap::new(),
        constraints: Vec::new(),
        numeric_contract: serde_json::Value::Null,
    }
}

fn constant_clone(c: &ConstantValue) -> ConstantValue {
    match c {
        ConstantValue::Bool { value } => ConstantValue::Bool { value: *value },
        ConstantValue::I32 { value } => ConstantValue::I32 { value: *value },
        ConstantValue::F32 { bits } => ConstantValue::F32 { bits: bits.clone() },
    }
}

#[test]
fn operations_fold_from_their_constant_operands() {
    let p = constant_program(
        Opcode::Add,
        &[("iv2", ConstantValue::I32 { value: 40 }, ScalarType::I32), ("iv3", ConstantValue::I32 { value: 2 }, ScalarType::I32)],
        None,
    );
    match fold_operation(&p, "iop1").unwrap() {
        FoldStep::Constant(ConstantValue::I32 { value }) => assert_eq!(value, 42),
        other => panic!("unexpected fold {other:?}"),
    }
    let p = constant_program(
        Opcode::Compare,
        &[("iv2", ConstantValue::I32 { value: 1 }, ScalarType::I32), ("iv3", ConstantValue::I32 { value: 2 }, ScalarType::I32)],
        Some("gt"),
    );
    assert!(matches!(fold_operation(&p, "iop1").unwrap(), FoldStep::Constant(ConstantValue::Bool { value: false })));
}

#[test]
fn operations_that_cannot_fold() {
    let p = constant_program(Opcode::Add, &[("iv2", ConstantValue::I32 { value: 1 }, ScalarType::I32)], None);
    assert_eq!(fold_operation(&p, "iop9").unwrap_err().code, ErrorCode::RewriteNotApplicable);
    assert_eq!(fold_operation(&p, "iop1").unwrap_err().code, ErrorCode::RewriteNotApplicable);
    let mut p = constant_program(
        Opcode::Add,
        &[("iv2", ConstantValue::I32 { value: 1 }, ScalarType::I32), ("iv3", ConstantValue::I32 { value: 2 }, ScalarType::I32)],
        None,
    );
    p.constants.remove("iv3");
    assert_eq!(fold_operation(&p, "iop1").unwrap_err().code, ErrorCode::RewriteNotApplicable);
    p.values.remove("iv2");
    assert_eq!(fold_operation(&p, "iop1").unwrap_err().code, ErrorCode::ImplVerificationFailed);
    let p = constant_program(Opcode::Parameter, &[], None);
    assert_eq!(fold_operation(&p, "iop1").unwrap_err().code, ErrorCode::RewriteNotApplicable);
}

#[test]
fn an_absent_predicate_compares_for_equality() {
    let operands = [("iv1", ConstantValue::I32 { value: 3 }, ScalarType::I32), ("iv2", ConstantValue::I32 { value: 4 }, ScalarType::I32)];
    let p = constant_program(Opcode::Compare, &operands, None);
    assert!(matches!(fold_operation(&p, "iop1").unwrap(), FoldStep::Constant(ConstantValue::Bool { value: false })));
    let p = constant_program(Opcode::Compare, &operands, Some("ne"));
    assert!(matches!(fold_operation(&p, "iop1").unwrap(), FoldStep::Constant(ConstantValue::Bool { value: true })));
}
