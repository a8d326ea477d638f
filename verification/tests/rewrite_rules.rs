use agentir_core::candidate::known_rewrite_rule;

#[test]
fn the_registry_holds_exactly_three_rules() {
    let noop = known_rewrite_rule("eliminate_noop_cast").unwrap();
    assert_eq!(noop.id, "eliminate_noop_cast");
    assert_eq!(noop.pattern, "cast(source) with fully identical source, result, and target types");
    assert_eq!(noop.side_conditions, vec!["source_type == target_type".to_string()]);
    let fold = known_rewrite_rule("fold_defined_scalar_constants").unwrap();
    assert_eq!(fold.pattern, "defined scalar add/sub/mul/div/fma/compare/cast/select");
    assert_eq!(
        fold.side_conditions,
        vec!["all operands are exact scalar constants".to_string(), "reference evaluation is defined".to_string()]
    );
    let prune = known_rewrite_rule("prune_unreachable_impl_nodes").unwrap();
    assert_eq!(prune.pattern, "ImplIR operations unreachable from parameters and outputs");
    assert_eq!(prune.side_conditions, vec!["target and removed nodes are output-unreachable".to_string()]);
}

#[test]
fn unknown_rules_are_absent() {
    assert!(known_rewrite_rule("").is_none());
    assert!(known_rewrite_rule("eliminate_noop_cast ").is_none());
    assert!(known_rewrite_rule("fuse_everything").is_none());
}
