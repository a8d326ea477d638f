use agentir_core::constraints::{ConstraintFacts, ConstraintQueryResult};
use agentir_core::diagnostics::ErrorCode;
use agentir_core::types::{DimExpr, Shape, ShapeConstraint};

fn sym(name: &str) -> DimExpr {
    DimExpr::Symbol(name.to_string())
}

fn shape(dims: Vec<DimExpr>) -> Shape {
    Shape(dims)
}

fn equal(left: Vec<DimExpr>, right: Vec<DimExpr>) -> ShapeConstraint {
    ShapeConstraint::Equal { left: shape(left), right: shape(right) }
}

fn proved_texts(result: &ConstraintQueryResult) -> (String, String, usize) {
    match result {
        ConstraintQueryResult::Proved { proof } => {
            (proof.normalized_left.clone(), proof.normalized_right.clone(), proof.facts.len())
        }
        other => panic!("expected a proof, got {other:?}"),
    }
}

fn declared(symbols: &[&str]) -> ConstraintFacts {
    let mut facts = ConstraintFacts::new();
    for s in symbols {
        facts.declare_symbol(s, true).unwrap();
    }
    facts
}

#[test]
fn symbols_must_be_fresh_identifiers() {
    let mut facts = ConstraintFacts::new();
    assert!(facts.declare_symbol("n", true).is_ok());
    assert!(facts.declare_symbol("batch_2", false).is_ok());
    assert_eq!(facts.declare_symbol("n", true).unwrap_err().code, ErrorCode::InvalidConstraint);
    assert_eq!(facts.declare_symbol("", true).unwrap_err().code, ErrorCode::InvalidConstraint);
    assert_eq!(facts.declare_symbol("2n", true).unwrap_err().code, ErrorCode::InvalidConstraint);
    assert_eq!(facts.declare_symbol("n-1", true).unwrap_err().code, ErrorCode::InvalidConstraint);
}

#[test]
fn static_shapes_are_compared_dimensionwise() {
    let facts = ConstraintFacts::new();
    let same = facts
        .query_shapes(&shape(vec![DimExpr::Static(2), DimExpr::Static(3)]), &shape(vec![DimExpr::Static(2), DimExpr::Static(3)]))
        .unwrap();
    assert_eq!(proved_texts(&same), ("[2,3]".to_string(), "[2,3]".to_string(), 0));
    let different = facts
        .query_shapes(&shape(vec![DimExpr::Static(2)]), &shape(vec![DimExpr::Static(3)]))
        .unwrap();
    match different {
        ConstraintQueryResult::Contradiction { contradiction } => {
            assert_eq!(contradiction.expected, "2");
            assert_eq!(contradiction.actual, "3");
        }
        other => panic!("expected a contradiction, got {other:?}"),
    }
    let ranks = facts
        .query_shapes(&shape(vec![DimExpr::Static(2)]), &shape(vec![DimExpr::Static(2), DimExpr::Static(1)]))
        .unwrap();
    match ranks {
        ConstraintQueryResult::Contradiction { contradiction } => {
            assert_eq!(contradiction.expected, "rank 1");
            assert_eq!(contradiction.actual, "rank 2");
        }
        other => panic!("expected a contradiction, got {other:?}"),
    }
}

#[test]
fn undeclared_symbols_are_invalid() {
    let mut facts = ConstraintFacts::new();
    let error = facts.query_shapes(&shape(vec![sym("n")]), &shape(vec![DimExpr::Static(4)])).unwrap_err();
    assert_eq!(error.code, ErrorCode::InvalidConstraint);
    let error = facts.insert(&equal(vec![sym("n")], vec![DimExpr::Static(4)])).unwrap_err();
    assert_eq!(error.code, ErrorCode::InvalidConstraint);
    assert!(facts.accepted_facts().is_empty());
}

#[test]
fn unrelated_symbols_are_unknown() {
    let facts = declared(&["m", "n"]);
    let result = facts.query_shapes(&shape(vec![sym("m")]), &shape(vec![sym("n")])).unwrap();
    assert!(matches!(result, ConstraintQueryResult::Unknown));
}

#[test]
fn inserted_equality_is_proved_and_binds_the_symbol() {
    let mut facts = declared(&["n"]);
    let result = facts.insert(&equal(vec![sym("n")], vec![DimExpr::Static(4)])).unwrap();
    assert_eq!(proved_texts(&result), ("[4]".to_string(), "[4]".to_string(), 1));
    assert_eq!(facts.accepted_facts().len(), 1);
    let query = facts.query_shapes(&shape(vec![sym("n"), DimExpr::Static(2)]), &shape(vec![DimExpr::Static(4), DimExpr::Static(2)])).unwrap();
    assert_eq!(proved_texts(&query), ("[4,2]".to_string(), "[4,2]".to_string(), 1));
}

#[test]
fn equated_symbols_normalize_alike() {
    let mut facts = declared(&["m", "n"]);
    let result = facts.insert(&equal(vec![sym("m")], vec![sym("n")])).unwrap();
    let (left, right, count) = proved_texts(&result);
    assert_eq!(left, right);
    assert_eq!(count, 1);
    let query = facts.query_shapes(&shape(vec![sym("n")]), &shape(vec![sym("m")])).unwrap();
    let (left, right, _) = proved_texts(&query);
    assert_eq!(left, right);
}

#[test]
fn contradictory_insertions_leave_the_facts_unchanged() {
    let mut facts = declared(&["n"]);
    facts.insert(&equal(vec![sym("n")], vec![DimExpr::Static(4)])).unwrap();
    let error = facts.insert(&equal(vec![sym("n")], vec![DimExpr::Static(5)])).unwrap_err();
    assert_eq!(error.code, ErrorCode::ConstraintContradiction);
    let error = facts
        .insert(&equal(vec![DimExpr::Static(1)], vec![DimExpr::Static(1), DimExpr::Static(1)]))
        .unwrap_err();
    assert_eq!(error.code, ErrorCode::ConstraintContradiction);
    assert_eq!(facts.accepted_facts().len(), 1);
    let query = facts.query_shapes(&shape(vec![sym("n")]), &shape(vec![DimExpr::Static(4)])).unwrap();
    assert_eq!(proved_texts(&query).0, "[4]");
}

#[test]
fn duplicate_insertion_is_a_no_op() {
    let mut facts = declared(&["n"]);
    let c = equal(vec![sym("n")], vec![DimExpr::Static(8)]);
    facts.insert(&c).unwrap();
    let again = facts.insert(&c).unwrap();
    assert_eq!(proved_texts(&again), ("[8]".to_string(), "[8]".to_string(), 1));
    assert_eq!(facts.accepted_facts().len(), 1);
}

#[test]
fn accepted_order_does_not_depend_on_insertion_order() {
    let a = equal(vec![sym("m")], vec![DimExpr::Static(3)]);
    let b = ShapeConstraint::NonNegative { symbol: "n".to_string() };
    let mut first = declared(&["m", "n"]);
    first.insert(&a).unwrap();
    first.insert(&b).unwrap();
    let mut second = declared(&["m", "n"]);
    second.insert(&b).unwrap();
    second.insert(&a).unwrap();
    assert_eq!(format!("{:?}", first.accepted_facts()), format!("{:?}", second.accepted_facts()));
}

#[test]
fn a_repeated_insertion_answers_as_the_first() {
    let mut facts = declared(&["n", "m"]);
    let c = equal(vec![sym("n")], vec![sym("m")]);
    let first = facts.insert(&c).unwrap();
    let before = format!("{:?}", facts.accepted_facts());
    let again = facts.insert(&c).unwrap();
    assert_eq!(proved_texts(&first), proved_texts(&again));
    assert_eq!(before, format!("{:?}", facts.accepted_facts()));
}

#[test]
fn accepted_facts_do_not_depend_on_the_order_of_many_insertions() {
    let cs = [
        equal(vec![sym("a")], vec![DimExpr::Static(3)]),
        ShapeConstraint::NonNegative { symbol: "b".to_string() },
        equal(vec![sym("b")], vec![sym("c")]),
    ];
    let mut forward = declared(&["a", "b", "c"]);
    for c in cs.iter() {
        forward.insert(c).unwrap();
    }
    let mut backward = declared(&["a", "b", "c"]);
    for c in cs.iter().rev() {
        backward.insert(c).unwrap();
    }
    assert_eq!(format!("{:?}", forward.accepted_facts()), format!("{:?}", backward.accepted_facts()));
}
