use agentir_core::candidate::CandidateHash;
use agentir_core::diagnostics::ErrorCode;
use agentir_core::fresh::lower_fresh;
use agentir_core::idmap::IdMap;
use agentir_core::impl_ir::{ImplHash, ImplOperation, ImplOutput, ImplProgram, ImplSourceLink, ImplValue, ImplValueOrigin};
use agentir_core::ir::Opcode;
use agentir_core::memory::{
    MemoryAction, MemoryAllocator, MemoryAnchor, MemoryEvent, MemoryHash, MemoryPlan, MemoryPlanStore, MemoryRevision,
    MemoryStatus, MemoryTransaction,
};
use agentir_core::memory_ir::{MemoryProgram, ReuseDecision};
use agentir_core::resources::ResourceLimits;
use agentir_core::semantic::SpecHash;
use agentir_core::types::{DimExpr, ScalarType, Shape, Type};
use sha2::{Digest, Sha256};

fn tensor() -> Type {
    Type::Tensor { element: ScalarType::F32, shape: Shape(vec![DimExpr::Static(4)]) }
}

fn link() -> ImplSourceLink {
    ImplSourceLink { spec_operation: None, spec_value: None, rewrite_rule: None }
}

fn op(id: &str, opcode: Opcode, operands: &[&str], result: &str) -> ImplOperation {
    ImplOperation {
        id: id.to_string(),
        opcode,
        operands: operands.iter().map(|s| s.to_string()).collect(),
        results: vec![result.to_string()],
        attributes: IdMap::new(),
        region: None,
        result_types: vec![tensor()],
        source_link: link(),
    }
}

fn chain() -> ImplProgram {
    let ops = vec![
        (op("iop1", Opcode::Parameter, &[], "iv1"), "iv1"),
        (op("iop2", Opcode::Add, &["iv1", "iv1"], "iv2"), "iv2"),
        (op("iop3", Opcode::Mul, &["iv2", "iv2"], "iv3"), "iv3"),
    ];
    let mut operations = IdMap::new();
    let mut values = IdMap::new();
    let mut order = Vec::new();
    for (o, v) in ops {
        values.insert(
            v.to_string(),
            ImplValue { id: v.to_string(), ty: tensor(), origin: ImplValueOrigin::Operation(o.id.clone()), name: None, source_link: link() },
        );
        order.push(o.id.clone());
        operations.insert(o.id.clone(), o);
    }
    let mut parameters = IdMap::new();
    parameters.insert("x".to_string(), "iv1".to_string());
    let mut outputs = IdMap::new();
    outputs.insert("y".to_string(), ImplOutput { name: "y".to_string(), value: "iv3".to_string(), ty: tensor() });
    ImplProgram {
        dimensions: IdMap::new(),
        operations,
        operation_order: order,
        values,
        parameters,
        constants: IdMap::new(),
        outputs,
        constraints: Vec::new(),
        numeric_contract: serde_json::Value::Null,
    }
}

fn limits(reuse_attempts: u64) -> ResourceLimits {
    ResourceLimits {
        memory_layout_entries: 16,
        memory_buffers_per_plan: 16,
        memory_operations_per_plan: 16,
        memory_accesses_per_plan: 64,
        memory_alias_domains: 16,
        memory_alias_facts: 256,
        memory_lifetime_points: 64,
        memory_lifetime_uses: 64,
        memory_allocation_bytes_per_buffer: 1 << 16,
        memory_total_allocation_bytes: 1 << 20,
        memory_guard_dependencies: 4,
        memory_guard_depth: 2,
        memory_fallback_depth: 2,
        memory_reuse_attempts: reuse_attempts,
        memory_obligations: 16,
        memory_canonical_bytes: 1 << 20,
        memory_plans_per_workspace: 16,
        memory_revisions_per_workspace: 64,
        memory_events: 64,
        benchmark_warmups: 4,
        benchmark_iterations: 16,
    }
}

fn base_hash() -> String {
    expected_hash(b"mp1/mr1")
}

fn impl_hash() -> String {
    "i".repeat(64)
}

fn store_with(program: MemoryProgram) -> MemoryPlanStore {
    let mut revisions = IdMap::new();
    revisions.insert(
        "mr1".to_string(),
        MemoryRevision {
            id: "mr1".to_string(),
            parents: Vec::new(),
            program,
            memory_hash: MemoryHash::new(base_hash()),
            impl_hash: ImplHash::new(impl_hash()),
            status: MemoryStatus::Proved,
            obligations: Vec::new(),
            certificates: Vec::new(),
            evidence: Vec::new(),
        },
    );
    let mut store = MemoryPlanStore::new();
    store.allocator.plan();
    store.allocator.revision();
    store.plans.insert(
        "mp1".to_string(),
        MemoryPlan {
            id: "mp1".to_string(),
            anchor: MemoryAnchor {
                spec_revision: "r1".to_string(),
                spec_hash: SpecHash::new("s".repeat(64)),
                candidate: "c1".to_string(),
                candidate_revision: "cr1".to_string(),
                candidate_hash: CandidateHash::new("c".repeat(64)),
                impl_hash: ImplHash::new(impl_hash()),
            },
            root_revision: "mr1".to_string(),
            head: "mr1".to_string(),
            revisions,
            parent_plan: None,
            forked_from_revision: None,
        },
    );
    store
}

fn fresh_store() -> (ImplProgram, MemoryPlanStore) {
    let implementation = chain();
    let program = lower_fresh(&implementation, &mut MemoryAllocator::new()).unwrap();
    (implementation, store_with(program))
}

fn transaction(base: &str, actions: Vec<MemoryAction>) -> MemoryTransaction {
    MemoryTransaction {
        memory_plan: "mp1".to_string(),
        base_memory_revision: base.to_string(),
        expected_memory_hash: MemoryHash::new(base_hash()),
        expected_impl_hash: ImplHash::new(impl_hash()),
        actions,
    }
}

fn encode(plan: &MemoryPlan, revision: &MemoryRevision) -> Vec<u8> {
    format!("{}/{}", plan.id, revision.id).into_bytes()
}

fn expected_hash(bytes: &[u8]) -> String {
    let mut input = b"agentir.memory.exact.v1\0".to_vec();
    input.extend_from_slice(bytes);
    Sha256::digest(&input).iter().map(|b| format!("{b:02x}")).collect()
}

fn apply(store: &mut MemoryPlanStore, implementation: &ImplProgram, t: &MemoryTransaction, reuse: u64) -> Result<String, ErrorCode> {
    store
        .apply(t, implementation, &limits(reuse), 3, 5, |p: &MemoryPlan, r: &MemoryRevision| encode(p, r))
        .map(|report| report.query.memory_revision)
        .map_err(|e| e.code)
}

#[test]
fn an_empty_transaction_is_refused_before_any_lookup() {
    let (implementation, mut store) = fresh_store();
    let mut t = transaction("mr1", Vec::new());
    t.memory_plan = "mp9".to_string();
    assert_eq!(apply(&mut store, &implementation, &t, 8), Err(ErrorCode::InvalidRequest));
    assert!(store.events.is_empty());
}

#[test]
fn transaction_admission_reports_the_first_failed_check() {
    let (implementation, mut store) = fresh_store();
    let fresh = || vec![MemoryAction::ChooseFreshBuffer { result: "iv3".to_string() }];
    let reuse = vec![
        MemoryAction::RequestInPlaceReuse { input: "iv2".to_string(), result: "iv3".to_string() },
        MemoryAction::RequestInPlaceReuse { input: "iv1".to_string(), result: "iv2".to_string() },
    ];
    assert_eq!(apply(&mut store, &implementation, &transaction("mr1", reuse), 1), Err(ErrorCode::ResourceLimitExceeded));
    let mut t = transaction("mr1", fresh());
    t.memory_plan = "mp9".to_string();
    assert_eq!(apply(&mut store, &implementation, &t, 8), Err(ErrorCode::MemoryPlanNotFound));
    assert_eq!(apply(&mut store, &implementation, &transaction("mr9", fresh()), 8), Err(ErrorCode::MemoryRevisionNotFound));
    let mut t = transaction("mr1", fresh());
    t.expected_memory_hash = MemoryHash::new("0".repeat(64));
    assert_eq!(apply(&mut store, &implementation, &t, 8), Err(ErrorCode::MemoryHashMismatch));
    let mut t = transaction("mr1", fresh());
    t.expected_impl_hash = ImplHash::new("0".repeat(64));
    assert_eq!(apply(&mut store, &implementation, &t, 8), Err(ErrorCode::MemoryEquivalenceUnproved));
    assert!(store.events.is_empty());
    assert_eq!(store.plans.get("mp1").unwrap().head, "mr1");
}

#[test]
fn choosing_the_fresh_buffer_publishes_a_proved_child_revision() {
    let (implementation, mut store) = fresh_store();
    let t = transaction("mr1", vec![MemoryAction::ChooseFreshBuffer { result: "iv3".to_string() }]);
    assert_eq!(apply(&mut store, &implementation, &t, 8), Ok("mr2".to_string()));
    let plan = store.plans.get("mp1").unwrap();
    assert_eq!(plan.head, "mr2");
    assert_eq!(plan.revisions.len(), 2);
    let child = plan.revisions.get("mr2").unwrap();
    assert_eq!(child.parents, vec!["mr1".to_string()]);
    assert_eq!(child.status, MemoryStatus::Proved);
    assert_eq!(child.memory_hash.as_str(), expected_hash(b"mp1/mr2"));
    assert_eq!(child.obligations.len(), 1);
    assert_eq!(child.evidence, vec!["mev1".to_string()]);
    assert_eq!(child.certificates[0].method, "memory_transaction_v1");
    assert_eq!(child.certificates[0].after_memory_hash.as_ref().unwrap().as_str(), expected_hash(b"mp1/mr2"));
    assert_eq!(child.certificates[0].before_memory_hash.as_ref().unwrap().as_str(), base_hash());
    assert_eq!(store.evidence.get("mev1").unwrap().memory_revision, "mr2");
    assert_eq!(store.events.len(), 1);
    assert_eq!(store.events[0].candidate_event_cursor, 3);
    assert_eq!(store.events[0].equality_event_cursor, 5);
    match &store.events[0].event {
        MemoryEvent::Applied { memory_revision, memory_hash, .. } => {
            assert_eq!(memory_revision, "mr2");
            assert_eq!(memory_hash.as_str(), expected_hash(b"mp1/mr2"));
        },
        _ => panic!("expected an applied event"),
    }
    assert_eq!(plan.revisions.get("mr1").unwrap().memory_hash.as_str(), base_hash());
}

#[test]
fn a_superseded_base_is_stale() {
    let (implementation, mut store) = fresh_store();
    let t = transaction("mr1", vec![MemoryAction::ChooseFreshBuffer { result: "iv3".to_string() }]);
    assert!(apply(&mut store, &implementation, &t, 8).is_ok());
    assert_eq!(apply(&mut store, &implementation, &t, 8), Err(ErrorCode::StaleMemoryBase));
    assert_eq!(store.events.len(), 1);
}

#[test]
fn guarded_reuse_marks_the_child_guarded() {
    let (implementation, mut store) = fresh_store();
    let t = transaction(
        "mr1",
        vec![MemoryAction::RequestGuardedReuse {
            input: "iv2".to_string(),
            result: "iv3".to_string(),
            guard_against: "buf1".to_string(),
        }],
    );
    assert_eq!(apply(&mut store, &implementation, &t, 8), Ok("mr2".to_string()));
    let child = store.plans.get("mp1").unwrap().revisions.get("mr2").unwrap();
    assert_eq!(child.status, MemoryStatus::Guarded);
    assert!(matches!(child.program.reuse_decisions.get("iv3"), Some(ReuseDecision::Guarded { .. })));
    assert_eq!(child.certificates[0].method, "guarded_no_overlap_reuse_v1");
}

#[test]
fn in_place_reuse_shares_the_input_buffer() {
    let (implementation, mut store) = fresh_store();
    let t = transaction("mr1", vec![MemoryAction::RequestInPlaceReuse { input: "iv2".to_string(), result: "iv3".to_string() }]);
    assert_eq!(apply(&mut store, &implementation, &t, 8), Ok("mr2".to_string()));
    let child = store.plans.get("mp1").unwrap().revisions.get("mr2").unwrap();
    assert_eq!(child.status, MemoryStatus::Proved);
    assert!(matches!(child.program.reuse_decisions.get("iv3"), Some(ReuseDecision::InPlace { .. })));
    assert_eq!(child.certificates[0].method, "static_in_place_reuse_v1");
}

#[test]
fn a_failed_action_leaves_the_store_unchanged() {
    let (implementation, mut store) = fresh_store();
    let t = transaction("mr1", vec![MemoryAction::SetAlignment { buffer: "buf9".to_string(), alignment: 16 }]);
    assert_eq!(apply(&mut store, &implementation, &t, 8), Err(ErrorCode::BufferNotFound));
    let t = transaction("mr1", vec![MemoryAction::ChooseFreshBuffer { result: "iv9".to_string() }]);
    assert_eq!(apply(&mut store, &implementation, &t, 8), Err(ErrorCode::BufferNotFound));
    assert!(store.events.is_empty());
    assert_eq!(store.plans.get("mp1").unwrap().revisions.len(), 1);
    assert!(store.evidence.get("mev1").is_none());
}

#[test]
fn buffer_updates_reach_the_active_buffer() {
    let (implementation, mut store) = fresh_store();
    let t = transaction("mr1", vec![MemoryAction::SetAlignment { buffer: "buf2".to_string(), alignment: 64 }]);
    assert_eq!(apply(&mut store, &implementation, &t, 8), Ok("mr2".to_string()));
    let child = store.plans.get("mp1").unwrap().revisions.get("mr2").unwrap();
    assert_eq!(child.program.buffers.get("buf2").unwrap().alignment, 64);
    let base = store.plans.get("mp1").unwrap().revisions.get("mr1").unwrap();
    assert_ne!(base.program.buffers.get("buf2").unwrap().alignment, 64);
}

#[test]
fn checking_a_revision_recomputes_its_hash() {
    let (implementation, mut store) = fresh_store();
    let report = store.check("mp1", "mr1", &implementation, &limits(8), encode).unwrap();
    assert_eq!(report.query.memory_revision, "mr1");
    assert!(report.well_typed && report.equivalent_to_impl && report.sealable);
    let other = |_: &MemoryPlan, _: &MemoryRevision| b"other".to_vec();
    assert_eq!(store.check("mp1", "mr1", &implementation, &limits(8), other).unwrap_err().code, ErrorCode::MemoryHashMismatch);
    assert_eq!(store.check("mp9", "mr1", &implementation, &limits(8), encode).unwrap_err().code, ErrorCode::MemoryPlanNotFound);
    assert_eq!(store.check("mp1", "mr9", &implementation, &limits(8), encode).unwrap_err().code, ErrorCode::MemoryRevisionNotFound);
    let t = transaction("mr1", vec![MemoryAction::ChooseFreshBuffer { result: "iv3".to_string() }]);
    assert!(apply(&mut store, &implementation, &t, 8).is_ok());
    let report = store.check("mp1", "mr2", &implementation, &limits(8), encode).unwrap();
    assert_eq!(report.query.correctness_evidence, 1);
    assert!(report.query.open_obligations.is_empty());
}

#[test]
fn a_base_whose_hash_does_not_recompute_is_refused() {
    let (implementation, mut store) = fresh_store();
    let t = transaction("mr1", vec![MemoryAction::ChooseFreshBuffer { result: "iv3".to_string() }]);
    let result = store.apply(&t, &implementation, &limits(8), 0, 0, |_: &MemoryPlan, _: &MemoryRevision| Vec::new());
    assert_eq!(result.unwrap_err().code, ErrorCode::MemoryHashMismatch);
    assert!(store.events.is_empty());
}

#[test]
fn sealing_the_head_publishes_a_sealed_child_once() {
    let (implementation, mut store) = fresh_store();
    let plan = "mp1".to_string();
    let report = store
        .seal(&plan, &"mr1".to_string(), &MemoryHash::new(base_hash()), &implementation, &limits(8), 1, 2, encode)
        .unwrap();
    assert_eq!(report.query.memory_revision, "mr2");
    assert_eq!(report.query.status, MemoryStatus::Sealed);
    assert!(!report.sealable);
    let sealed = store.plans.get("mp1").unwrap().revisions.get("mr2").unwrap();
    assert_eq!(sealed.parents, vec!["mr1".to_string()]);
    assert_eq!(sealed.certificates[0].method, "seal_memory_plan_v1");
    assert_eq!(sealed.memory_hash.as_str(), expected_hash(b"mp1/mr2"));
    assert!(matches!(store.events[0].event, MemoryEvent::Sealed { .. }));
    let again = store
        .seal(&plan, &"mr2".to_string(), &MemoryHash::new(expected_hash(b"mp1/mr2")), &implementation, &limits(8), 1, 2, encode)
        .unwrap();
    assert_eq!(again.query.memory_revision, "mr2");
    assert_eq!(store.events.len(), 1);
    let t = MemoryTransaction {
        memory_plan: plan.clone(),
        base_memory_revision: "mr2".to_string(),
        expected_memory_hash: MemoryHash::new(expected_hash(b"mp1/mr2")),
        expected_impl_hash: ImplHash::new(impl_hash()),
        actions: vec![MemoryAction::ChooseFreshBuffer { result: "iv3".to_string() }],
    };
    assert_eq!(apply(&mut store, &implementation, &t, 8), Err(ErrorCode::MemoryEquivalenceUnproved));
}

#[test]
fn sealing_refuses_a_stale_or_changed_base() {
    let (implementation, mut store) = fresh_store();
    let plan = "mp1".to_string();
    let hash = MemoryHash::new(base_hash());
    assert_eq!(
        store.seal(&"mp9".to_string(), &"mr1".to_string(), &hash, &implementation, &limits(8), 0, 0, encode).unwrap_err().code,
        ErrorCode::MemoryPlanNotFound
    );
    assert_eq!(
        store.seal(&plan, &"mr9".to_string(), &hash, &implementation, &limits(8), 0, 0, encode).unwrap_err().code,
        ErrorCode::MemoryRevisionNotFound
    );
    assert_eq!(
        store
            .seal(&plan, &"mr1".to_string(), &MemoryHash::new("0".repeat(64)), &implementation, &limits(8), 0, 0, encode)
            .unwrap_err()
            .code,
        ErrorCode::MemoryHashMismatch
    );
    let t = transaction("mr1", vec![MemoryAction::ChooseFreshBuffer { result: "iv3".to_string() }]);
    assert!(apply(&mut store, &implementation, &t, 8).is_ok());
    assert_eq!(
        store.seal(&plan, &"mr1".to_string(), &hash, &implementation, &limits(8), 0, 0, encode).unwrap_err().code,
        ErrorCode::StaleMemoryBase
    );
    assert_eq!(store.events.len(), 1);
}

#[test]
fn forking_copies_a_revision_into_a_new_plan() {
    let (implementation, mut store) = fresh_store();
    let report = store
        .fork(&"mp1".to_string(), &"mr1".to_string(), &MemoryHash::new(base_hash()), &implementation, &limits(8), 4, 6, encode)
        .unwrap();
    assert_eq!(report.query.memory_plan, "mp2");
    assert_eq!(report.query.memory_revision, "mr2");
    let child = store.plans.get("mp2").unwrap();
    assert_eq!(child.root_revision, "mr2");
    assert_eq!(child.head, "mr2");
    assert_eq!(child.parent_plan.as_deref(), Some("mp1"));
    assert_eq!(child.forked_from_revision.as_deref(), Some("mr1"));
    assert_eq!(child.anchor.candidate, "c1");
    let root = child.revisions.get("mr2").unwrap();
    assert!(root.parents.is_empty());
    assert_eq!(root.status, MemoryStatus::Proved);
    assert_eq!(root.memory_hash.as_str(), expected_hash(b"mp2/mr2"));
    assert_eq!(root.certificates[0].method, "forked_memory_plan_v1");
    assert_eq!(store.plans.get("mp1").unwrap().head, "mr1");
    assert!(matches!(store.events[0].event, MemoryEvent::Forked { .. }));
    assert_eq!(
        store
            .fork(&"mp1".to_string(), &"mr1".to_string(), &MemoryHash::new("0".repeat(64)), &implementation, &limits(8), 0, 0, encode)
            .unwrap_err()
            .code,
        ErrorCode::MemoryHashMismatch
    );
    assert_eq!(store.events.len(), 1);
}

#[test]
fn forking_a_sealed_revision_starts_a_draft() {
    let (implementation, mut store) = fresh_store();
    store
        .seal(&"mp1".to_string(), &"mr1".to_string(), &MemoryHash::new(base_hash()), &implementation, &limits(8), 0, 0, encode)
        .unwrap();
    store
        .fork(&"mp1".to_string(), &"mr2".to_string(), &MemoryHash::new(expected_hash(b"mp1/mr2")), &implementation, &limits(8), 0, 0, encode)
        .unwrap();
    let root = store.plans.get("mp2").unwrap().revisions.get("mr3").unwrap();
    assert_eq!(root.status, MemoryStatus::Draft);
}

fn anchor() -> MemoryAnchor {
    MemoryAnchor {
        spec_revision: "r1".to_string(),
        spec_hash: SpecHash::new("s".repeat(64)),
        candidate: "c1".to_string(),
        candidate_revision: "cr1".to_string(),
        candidate_hash: CandidateHash::new("c".repeat(64)),
        impl_hash: ImplHash::new(impl_hash()),
    }
}

#[test]
fn creating_a_plan_publishes_its_fresh_bufferization() {
    let implementation = chain();
    let mut store = MemoryPlanStore::new();
    let report = store.create(anchor(), &implementation, &limits(8), 2, 4, encode).unwrap();
    assert_eq!(report.query.memory_plan, "mp1");
    assert_eq!(report.query.memory_revision, "mr1");
    assert_eq!(report.query.memory_hash.as_str(), base_hash());
    let plan = store.plans.get("mp1").unwrap();
    assert_eq!(plan.root_revision, "mr1");
    assert!(plan.parent_plan.is_none());
    let root = plan.revisions.get("mr1").unwrap();
    assert_eq!(root.status, MemoryStatus::Proved);
    assert_eq!(root.certificates[0].method, "fresh_bufferization_v1");
    assert!(root.certificates[0].before_memory_hash.is_none());
    assert!(matches!(store.events[0].event, MemoryEvent::Created { .. }));
    let t = transaction("mr1", vec![MemoryAction::RequestInPlaceReuse { input: "iv2".to_string(), result: "iv3".to_string() }]);
    assert_eq!(apply(&mut store, &implementation, &t, 8), Ok("mr2".to_string()));
    assert!(store.check("mp1", "mr2", &implementation, &limits(8), encode).is_ok());
}

#[test]
fn creating_a_plan_respects_the_plan_budget() {
    let implementation = chain();
    let mut store = MemoryPlanStore::new();
    let mut tight = limits(8);
    tight.memory_plans_per_workspace = 0;
    assert_eq!(
        store.create(anchor(), &implementation, &tight, 0, 0, encode).unwrap_err().code,
        ErrorCode::ResourceLimitExceeded
    );
    assert!(store.plans.get("mp1").is_none());
    assert!(store.events.is_empty());
}
