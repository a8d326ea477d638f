use agentir_core::fold::constant_from_parts;
use agentir_core::ir::ConstantValue;
use agentir_core::json::JsonLit;
use agentir_core::types::ScalarType;

#[test]
fn booleans_read_as_bool_literals() {
    assert!(matches!(constant_from_parts(ScalarType::Bool, Some(true), None, None, None), Ok(ConstantValue::Bool { value: true })));
    assert_eq!(constant_from_parts(ScalarType::Bool, None, Some(1), None, None).unwrap_err(), "expected a JSON boolean");
}

#[test]
fn integers_read_as_i32_literals_in_range() {
    assert!(matches!(constant_from_parts(ScalarType::I32, None, Some(-7), None, None), Ok(ConstantValue::I32 { value: -7 })));
    assert!(matches!(constant_from_parts(ScalarType::Index, None, Some(3), None, None), Ok(ConstantValue::I32 { value: 3 })));
    assert_eq!(
        constant_from_parts(ScalarType::I32, None, Some(1 << 40), None, None).unwrap_err(),
        "expected a JSON integer in i32 range"
    );
    assert_eq!(constant_from_parts(ScalarType::I32, Some(true), None, None, None).unwrap_err(), "expected a JSON integer in i32 range");
}

#[test]
fn f32_literals_are_written_back_canonically() {
    let from_number = constant_from_parts(ScalarType::F32, None, None, Some(0x3f80_0000), None).unwrap();
    assert!(matches!(from_number, ConstantValue::F32 { ref bits } if bits == "0x3f800000"));
    let from_text = constant_from_parts(ScalarType::F32, None, None, None, Some("0x0x3F8")).unwrap();
    assert!(matches!(from_text, ConstantValue::F32 { ref bits } if bits == "0x000003f8"));
    assert_eq!(
        constant_from_parts(ScalarType::F32, None, None, None, Some("bits")).unwrap_err(),
        "expected f32 number or 0x-prefixed bits"
    );
    assert_eq!(constant_from_parts(ScalarType::F32, None, None, None, None).unwrap_err(), "expected f32 number or 0x-prefixed bits");
}

#[test]
fn json_literals_are_read_by_their_kind() {
    assert!(matches!(ConstantValue::from_json(ScalarType::Bool, &JsonLit::Bool(true)), Ok(ConstantValue::Bool { value: true })));
    assert!(matches!(ConstantValue::from_json(ScalarType::Bool, &JsonLit::Bool(false)), Ok(ConstantValue::Bool { value: false })));
    let number = JsonLit::Number { integer: Some(42), binary32: 0x4228_0000, raw: serde_json::Value::from(42) };
    assert!(matches!(ConstantValue::from_json(ScalarType::I32, &number), Ok(ConstantValue::I32 { value: 42 })));
    assert!(matches!(ConstantValue::from_json(ScalarType::F32, &number), Ok(ConstantValue::F32 { ref bits }) if bits == "0x42280000"));
    let text = JsonLit::Text("0x3f800000".to_string());
    assert!(matches!(ConstantValue::from_json(ScalarType::F32, &text), Ok(ConstantValue::F32 { ref bits }) if bits == "0x3f800000"));
    assert_eq!(ConstantValue::from_json(ScalarType::Bool, &text).unwrap_err(), "expected a JSON boolean");
    let other = JsonLit::Other(serde_json::Value::Null);
    assert_eq!(ConstantValue::from_json(ScalarType::I32, &other).unwrap_err(), "expected a JSON integer in i32 range");
}
