use agentir_core::diagnostics::ErrorCode;
use agentir_core::fresh::lower_fresh;
use agentir_core::idmap::IdMap;
use agentir_core::impl_ir::{ImplOperation, ImplOutput, ImplProgram, ImplSourceLink, ImplValue, ImplValueOrigin};
use agentir_core::ir::Opcode;
use agentir_core::candidate::CandidateHash;
use agentir_core::impl_ir::ImplHash;
use agentir_core::memory::{
    MemoryAllocator, MemoryAnchor, MemoryHash, MemoryPlan, MemoryPlanStore, MemoryRevision, MemoryStatus,
};
use agentir_core::memory_ir::MemoryProgram;
use agentir_core::resources::ResourceLimits;
use agentir_core::semantic::SpecHash;
use agentir_core::memory_ir::{
    AccessMode, AddressSpace, AliasProvenance, AliasRelation, BufferAccessKind, MemoryBinding, MemoryLayout, MemoryStride,
    Ownership, ReuseDecision,
};
use agentir_core::types::{DimExpr, ScalarType, Shape, Type};

fn tensor() -> Type {
    Type::Tensor { element: ScalarType::F32, shape: Shape(vec![DimExpr::Static(4)]) }
}

fn scalar() -> Type {
    Type::Scalar(ScalarType::I32)
}

fn link() -> ImplSourceLink {
    ImplSourceLink { spec_operation: None, spec_value: None, rewrite_rule: None }
}

fn op(id: &str, opcode: Opcode, operands: &[&str], result: &str, ty: Type) -> ImplOperation {
    ImplOperation {
        id: id.to_string(),
        opcode,
        operands: operands.iter().map(|s| s.to_string()).collect(),
        results: vec![result.to_string()],
        attributes: IdMap::new(),
        region: None,
        result_types: vec![ty],
        source_link: link(),
    }
}

fn program(
    ops: Vec<(ImplOperation, &str, Type)>,
    parameters: &[(&str, &str)],
    outputs: &[(&str, &str)],
) -> ImplProgram {
    let mut operations = IdMap::new();
    let mut values = IdMap::new();
    let mut order = Vec::new();
    for (o, v, ty) in ops {
        values.insert(
            v.to_string(),
            ImplValue { id: v.to_string(), ty, origin: ImplValueOrigin::Operation(o.id.clone()), name: None, source_link: link() },
        );
        order.push(o.id.clone());
        operations.insert(o.id.clone(), o);
    }
    let mut params = IdMap::new();
    for (name, v) in parameters {
        params.insert(name.to_string(), v.to_string());
    }
    let mut outs = IdMap::new();
    for (name, v) in outputs {
        outs.insert(name.to_string(), ImplOutput { name: name.to_string(), value: v.to_string(), ty: tensor() });
    }
    ImplProgram {
        dimensions: IdMap::new(),
        operations,
        operation_order: order,
        values,
        parameters: params,
        constants: IdMap::new(),
        outputs: outs,
        constraints: Vec::new(),
        numeric_contract: serde_json::Value::Null,
    }
}

fn tensor_add() -> ImplProgram {
    program(
        vec![
            (op("iop1", Opcode::Parameter, &[], "iv1", tensor()), "iv1", tensor()),
            (op("iop2", Opcode::Add, &["iv1", "iv1"], "iv2", tensor()), "iv2", tensor()),
            (op("iop3", Opcode::Constant, &[], "iv3", tensor()), "iv3", tensor()),
        ],
        &[("x", "iv1")],
        &[("y", "iv2")],
    )
}

#[test]
fn fresh_bufferization_gives_each_reachable_tensor_its_own_buffer() {
    let mut allocator = MemoryAllocator::new();
    let memory = lower_fresh(&tensor_add(), &mut allocator).unwrap();
    assert_eq!(memory.buffers.len(), 2);
    assert!(memory.bindings.get("iv3").is_none());
    let input = memory.buffers.get("buf1").unwrap();
    assert_eq!(input.source_value, "iv1");
    assert_eq!(input.ownership, Ownership::ExternalBorrowed);
    assert_eq!(input.access, AccessMode::ReadOnly);
    assert_eq!(input.address_space, AddressSpace::Global);
    assert_eq!(input.external_binding, Some("x".to_string()));
    assert_eq!(input.alias_domain, "ad1");
    assert_eq!(input.alignment, 4);
    assert_eq!(input.provenance, "external_parameter");
    assert!(matches!(input.layout, MemoryLayout::ContiguousRowMajor));
    assert_eq!(input.strides.entries.len(), 1);
    assert!(matches!(input.strides.entries[0], MemoryStride::Static { value: 1 }));
    assert!(input.lifetime.external);
    let result = memory.buffers.get("buf2").unwrap();
    assert_eq!(result.source_value, "iv2");
    assert_eq!(result.ownership, Ownership::PlanOwned);
    assert_eq!(result.access, AccessMode::ReadWrite);
    assert_eq!(result.external_binding, None);
    assert_eq!(result.provenance, "fresh_conservative_bufferization");
    assert!(result.lifetime.output_escape);
    assert!(!result.lifetime.deallocation_eligible);
    assert_eq!(memory.alias_domains.get("ad1").unwrap().provenance, AliasProvenance::ProvedFromExternalContract);
    assert_eq!(memory.alias_domains.get("ad2").unwrap().provenance, AliasProvenance::ProvedFromRegionConstruction);
    assert!(memory.fresh_baseline_buffers.get("iv1").is_none());
    assert_eq!(memory.fresh_baseline_buffers.get("iv2").unwrap().id, "buf2");
    assert!(matches!(memory.reuse_decisions.get("iv2"), Some(ReuseDecision::Fresh { buffer }) if buffer == "buf2"));
    assert!(memory.reuse_decisions.get("iv1").is_none());
}

#[test]
fn fresh_bufferization_lowers_each_computing_operation_once() {
    let mut allocator = MemoryAllocator::new();
    let memory = lower_fresh(&tensor_add(), &mut allocator).unwrap();
    assert_eq!(memory.operation_order, vec!["mop1".to_string()]);
    assert_eq!(memory.operation_for_impl.get("iop2").unwrap(), "mop1");
    assert!(memory.operation_for_impl.get("iop1").is_none());
    let operation = memory.operations.get("mop1").unwrap();
    assert_eq!(operation.impl_operation, "iop2");
    assert_eq!(operation.opcode, "add");
    assert_eq!(operation.operands.len(), 2);
    assert!(matches!(&operation.results[0], MemoryBinding::Buffer { value, buffer } if value == "iv2" && buffer == "buf2"));
    assert_eq!(operation.accesses.len(), 3);
    assert_eq!(operation.accesses[0].kind, BufferAccessKind::Read);
    assert_eq!(operation.accesses[2].kind, BufferAccessKind::Write);
    assert_eq!(operation.accesses[2].buffer, "buf2");
    assert!(matches!(memory.outputs.get("y"), Some(MemoryBinding::Buffer { buffer, .. }) if buffer == "buf2"));
    assert_eq!(memory.alias_facts.len(), 3);
    assert_eq!(memory.alias_facts[0].relation, AliasRelation::MustAlias);
    assert_eq!(memory.alias_facts[1].relation, AliasRelation::NoAlias);
}

#[test]
fn fresh_bufferization_advances_only_its_own_counters() {
    let mut allocator = MemoryAllocator::new();
    lower_fresh(&tensor_add(), &mut allocator).unwrap();
    assert_eq!(allocator.buffer(), "buf3");
    assert_eq!(allocator.alias_domain(), "ad3");
    assert_eq!(allocator.operation(), "mop2");
    assert_eq!(allocator.plan(), "mp1");
}

#[test]
fn fresh_bufferization_binds_scalars_without_buffers() {
    let p = program(
        vec![
            (op("iop1", Opcode::Parameter, &[], "iv1", scalar()), "iv1", scalar()),
            (op("iop2", Opcode::Mul, &["iv1", "iv1"], "iv2", scalar()), "iv2", scalar()),
        ],
        &[("x", "iv1")],
        &[("y", "iv2")],
    );
    let mut allocator = MemoryAllocator::new();
    let memory = lower_fresh(&p, &mut allocator).unwrap();
    assert_eq!(memory.buffers.len(), 0);
    assert!(matches!(memory.bindings.get("iv2"), Some(MemoryBinding::Scalar { value }) if value == "iv2"));
    assert_eq!(memory.operations.get("mop1").unwrap().accesses.len(), 0);
    assert_eq!(memory.alias_facts.len(), 0);
}

#[test]
fn fresh_bufferization_rejects_a_dependency_cycle() {
    let p = program(
        vec![(op("iop1", Opcode::Add, &["iv1"], "iv1", tensor()), "iv1", tensor())],
        &[],
        &[("y", "iv1")],
    );
    let mut allocator = MemoryAllocator::new();
    let error = lower_fresh(&p, &mut allocator).unwrap_err();
    assert_eq!(error.code, ErrorCode::MemoryEquivalenceUnproved);
}

fn chain() -> ImplProgram {
    program(
        vec![
            (op("iop1", Opcode::Parameter, &[], "iv1", tensor()), "iv1", tensor()),
            (op("iop2", Opcode::Add, &["iv1", "iv1"], "iv2", tensor()), "iv2", tensor()),
            (op("iop3", Opcode::Mul, &["iv2", "iv2"], "iv3", tensor()), "iv3", tensor()),
        ],
        &[("x", "iv1")],
        &[("y", "iv3")],
    )
}

fn limits(reuse_attempts: u64) -> ResourceLimits {
    ResourceLimits {
        memory_layout_entries: 16,
        memory_buffers_per_plan: 16,
        memory_operations_per_plan: 16,
        memory_accesses_per_plan: 64,
        memory_alias_domains: 16,
        memory_alias_facts: 256,
        memory_lifetime_points: 64,
        memory_lifetime_uses: 64,
        memory_allocation_bytes_per_buffer: 1 << 16,
        memory_total_allocation_bytes: 1 << 20,
        memory_guard_dependencies: 4,
        memory_guard_depth: 2,
        memory_fallback_depth: 2,
        memory_reuse_attempts: reuse_attempts,
        memory_obligations: 16,
        memory_canonical_bytes: 1 << 20,
        memory_plans_per_workspace: 16,
        memory_revisions_per_workspace: 64,
        memory_events: 64,
        benchmark_warmups: 4,
        benchmark_iterations: 16,
    }
}

fn store_with(program: MemoryProgram) -> MemoryPlanStore {
    let mut revisions = IdMap::new();
    revisions.insert(
        "mr1".to_string(),
        MemoryRevision {
            id: "mr1".to_string(),
            parents: Vec::new(),
            program,
            memory_hash: MemoryHash::new("m".repeat(64)),
            impl_hash: ImplHash::new("i".repeat(64)),
            status: MemoryStatus::Proved,
            obligations: Vec::new(),
            certificates: Vec::new(),
            evidence: Vec::new(),
        },
    );
    let mut store = MemoryPlanStore::new();
    store.plans.insert(
        "mp1".to_string(),
        MemoryPlan {
            id: "mp1".to_string(),
            anchor: MemoryAnchor {
                spec_revision: "r1".to_string(),
                spec_hash: SpecHash::new("s".repeat(64)),
                candidate: "c1".to_string(),
                candidate_revision: "cr1".to_string(),
                candidate_hash: CandidateHash::new("c".repeat(64)),
                impl_hash: ImplHash::new("i".repeat(64)),
            },
            root_revision: "mr1".to_string(),
            head: "mr1".to_string(),
            revisions,
            parent_plan: None,
            forked_from_revision: None,
        },
    );
    store
}

#[test]
fn continuations_offer_each_same_typed_operand_in_result_then_input_order() {
    let implementation = chain();
    let mut allocator = MemoryAllocator::new();
    let store = store_with(lower_fresh(&implementation, &mut allocator).unwrap());
    let continuation = store.continuation("mp1", "mr1", &implementation, &limits(8)).unwrap();
    assert_eq!(continuation.memory_plan, "mp1");
    assert_eq!(continuation.memory_revision, "mr1");
    assert_eq!(continuation.expected_memory_hash.as_str(), "m".repeat(64));
    let pairs: Vec<(String, String)> =
        continuation.reuse_choices.iter().map(|c| (c.result.clone(), c.input.clone())).collect();
    assert_eq!(
        pairs,
        vec![
            ("iv2".to_string(), "iv1".to_string()),
            ("iv2".to_string(), "iv1".to_string()),
            ("iv3".to_string(), "iv2".to_string()),
            ("iv3".to_string(), "iv2".to_string()),
        ]
    );
    let borrowed = &continuation.reuse_choices[0];
    assert!(!borrowed.statically_applicable);
    assert_eq!(borrowed.failed_side_condition, Some(ErrorCode::InPlaceReuseUnsafe));
    assert!(borrowed.fresh_fallback);
    assert_eq!(borrowed.supported_guard_profile, "no_overlap");
    assert_eq!(continuation.address_spaces.len(), 4);
    assert_eq!(continuation.layouts, vec!["contiguous_row_major".to_string(), "explicit_strided".to_string()]);
}

#[test]
fn continuations_are_bounded_by_the_reuse_attempt_budget() {
    let implementation = chain();
    let mut allocator = MemoryAllocator::new();
    let store = store_with(lower_fresh(&implementation, &mut allocator).unwrap());
    let error = store.continuation("mp1", "mr1", &implementation, &limits(3)).unwrap_err();
    assert_eq!(error.code, ErrorCode::ResourceLimitExceeded);
}

#[test]
fn continuations_of_a_missing_plan_or_revision_are_refused() {
    let implementation = chain();
    let mut allocator = MemoryAllocator::new();
    let store = store_with(lower_fresh(&implementation, &mut allocator).unwrap());
    assert_eq!(store.continuation("mp9", "mr1", &implementation, &limits(8)).unwrap_err().code, ErrorCode::MemoryPlanNotFound);
    assert_eq!(
        store.continuation("mp1", "mr9", &implementation, &limits(8)).unwrap_err().code,
        ErrorCode::MemoryRevisionNotFound
    );
}

#[test]
fn memory_store_queries_read_one_revision() {
    let implementation = tensor_add();
    let mut allocator = MemoryAllocator::new();
    let store = store_with(lower_fresh(&implementation, &mut allocator).unwrap());
    assert_eq!(store.buffer_query("mp1", "mr1", "buf2").unwrap().source_value, "iv2");
    assert_eq!(store.buffer_query("mp1", "mr1", "buf9").unwrap_err().code, ErrorCode::BufferNotFound);
    assert_eq!(store.alias_query("mp1", "mr1", "buf2", "buf1").unwrap().relation, AliasRelation::NoAlias);
    assert_eq!(store.alias_query("mp1", "mr1", "buf1", "buf1").unwrap().relation, AliasRelation::MustAlias);
    assert_eq!(store.alias_query("mp2", "mr1", "buf1", "buf1").unwrap_err().code, ErrorCode::MemoryPlanNotFound);
}

#[test]
fn fresh_bufferization_is_deterministic() {
    let implementation = chain();
    let first = lower_fresh(&implementation, &mut MemoryAllocator::new()).unwrap();
    let second = lower_fresh(&implementation, &mut MemoryAllocator::new()).unwrap();
    assert_eq!(format!("{first:?}"), format!("{second:?}"));
}
