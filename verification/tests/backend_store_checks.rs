use agentir_core::backend::{BackendAllocator, BackendHash, BackendPlan, BackendRevision, BackendStore};
use agentir_core::backend_ir::{
    BackendAnchor, BackendBinding, BackendBindingAccess, BackendCertificate, BackendDispatch, BackendExpression,
    BackendExtent, BackendKernel, BackendKind, BackendObligation, BackendOutput, BackendParameterBlock, BackendProgram,
    BackendStatement, BackendStatus, BackendValue,
};
use agentir_core::backend_store::backend_hash;
use agentir_core::diagnostics::ErrorCode;
use agentir_core::idmap::IdMap;
use agentir_core::impl_ir::ImplHash;
use agentir_core::memory::MemoryHash;
use agentir_core::schedule::ScheduleHash;
use agentir_core::semantic::SpecHash;
use agentir_core::target::TargetHash;
use agentir_core::types::{DimExpr, ScalarType, Shape};
use sha2::{Digest, Sha256};

fn binding(number: u32) -> BackendBinding {
    BackendBinding {
        group: 0,
        binding: number,
        buffer: format!("buf{number}"),
        external_name: if number == 1 { Some("y".to_string()) } else { None },
        element_type: ScalarType::F32,
        shape: Shape(vec![DimExpr::Static(4)]),
        access: if number == 1 { BackendBindingAccess::Write } else { BackendBindingAccess::Read },
        alignment: 4,
        offset_elements: 0,
    }
}

fn output() -> BackendOutput {
    BackendOutput { name: "y".to_string(), binding: 1, buffer: "buf1".to_string() }
}

fn block() -> BackendParameterBlock {
    BackendParameterBlock { group: 0, binding: 2, entries: Vec::new(), byte_size: 0 }
}

fn kernel() -> BackendKernel {
    let mut values = IdMap::new();
    values.insert(
        "bv1".to_string(),
        BackendValue { id: "bv1".to_string(), expression: BackendExpression::InvocationIndex, ty: ScalarType::Index },
    );
    BackendKernel {
        id: "bk1".to_string(),
        entry_point: "main_bk1".to_string(),
        source_schedule_nodes: vec!["sn1".to_string()],
        bindings: vec![binding(0), binding(1)],
        parameter_block: block(),
        workgroup_size: [64, 1, 1],
        logical_extent: BackendExtent::Static { value: 4 },
        serial: false,
        vector_width: 1,
        unroll_factor: 1,
        values,
        statements: vec![BackendStatement::Store { binding: 1, index: "bv1".to_string(), value: "bv1".to_string() }],
        outputs: vec![output()],
        lowering_method: "structural".to_string(),
    }
}

fn dispatch() -> BackendDispatch {
    BackendDispatch {
        order: 0,
        kernel: "bk1".to_string(),
        workgroups: [BackendExtent::Static { value: 1 }, BackendExtent::Static { value: 1 }, BackendExtent::Static { value: 1 }],
        workgroup_size: [64, 1, 1],
        bounds_checked: true,
    }
}

fn revision() -> BackendRevision {
    let mut kernels = IdMap::new();
    kernels.insert("bk1".to_string(), kernel());
    BackendRevision {
        id: "br1".to_string(),
        parents: Vec::new(),
        program: BackendProgram {
            kernels,
            kernel_order: vec!["bk1".to_string()],
            dispatches: vec![dispatch()],
            guard: None,
            outputs: vec![output()],
        },
        backend_hash: BackendHash("b".repeat(64)),
        status: BackendStatus::Proved,
        certificate: BackendCertificate {
            relation: "backend_equivalent_to_schedule".to_string(),
            schedule_hash: ScheduleHash("h".repeat(64)),
            backend_hash: BackendHash("b".repeat(64)),
            schedule_node_coverage: vec!["sn1".to_string()],
            conditions: Vec::new(),
            semantics_version: 1,
            validator_version: 1,
        },
        evidence: Vec::new(),
        obligations: Vec::new(),
    }
}

fn anchor() -> BackendAnchor {
    BackendAnchor {
        spec_revision: "r1".to_string(),
        spec_hash: SpecHash("s".repeat(64)),
        impl_hash: ImplHash("i".repeat(64)),
        memory_hash: MemoryHash("m".repeat(64)),
        memory_plan: "mp1".to_string(),
        memory_revision: "mr1".to_string(),
        target_hash: TargetHash("t".repeat(64)),
        target_manifest: "tm1".to_string(),
        target_revision: "tr1".to_string(),
        schedule_hash: ScheduleHash("h".repeat(64)),
        schedule_plan: "sp1".to_string(),
        schedule_revision: "sr1".to_string(),
        numeric_contract: serde_json::Value::Null,
        backend_kind: BackendKind::WebGpuWgslV1,
    }
}

fn digest(bytes: &[u8]) -> String {
    let mut data = b"agentir.backend.wgsl.exact.v1\0".to_vec();
    data.extend_from_slice(bytes);
    Sha256::digest(&data).iter().map(|b| format!("{b:02x}")).collect()
}

const BYTES: &[u8] = b"backend revision br1 of bp1";

fn store_with(mut rev: BackendRevision) -> BackendStore {
    let mut revisions = IdMap::new();
    rev.backend_hash = BackendHash(digest(BYTES));
    rev.certificate.backend_hash = BackendHash(digest(BYTES));
    revisions.insert("br1".to_string(), rev);
    let mut plans = IdMap::new();
    plans.insert(
        "bp1".to_string(),
        BackendPlan { id: "bp1".to_string(), anchor: anchor(), head: "br1".to_string(), revisions },
    );
    BackendStore { plans, allocator: BackendAllocator::new(), events: Vec::new() }
}

fn second_kernel(rev: &mut BackendRevision) {
    let mut k = kernel();
    k.id = "bk2".to_string();
    k.entry_point = "main_bk2".to_string();
    k.source_schedule_nodes = vec!["sn2".to_string()];
    k.vector_width = 4;
    k.bindings.push(binding(2));
    k.parameter_block.binding = 3;
    rev.program.kernels.insert("bk2".to_string(), k);
    rev.program.kernel_order.push("bk2".to_string());
    let mut d = dispatch();
    d.order = 1;
    d.kernel = "bk2".to_string();
    rev.program.dispatches.push(d);
    rev.certificate.schedule_node_coverage.push("sn2".to_string());
}

#[test]
fn backend_hash_is_the_domain_separated_digest() {
    assert_eq!(backend_hash(b"xyz").0, digest(b"xyz"));
    assert_ne!(backend_hash(b"xyz").0, digest(b"xy"));
}

#[test]
fn revision_lookup_distinguishes_missing_plan_and_revision() {
    let store = store_with(revision());
    assert!(store.revision("bp1", "br1").is_ok());
    assert_eq!(store.revision("bp9", "br1").err().map(|e| e.code), Some(ErrorCode::BackendPlanNotFound));
    assert_eq!(store.revision("bp1", "br9").err().map(|e| e.code), Some(ErrorCode::BackendRevisionNotFound));
}

#[test]
fn query_summarises_a_revision() {
    let mut rev = revision();
    second_kernel(&mut rev);
    rev.obligations = vec![
        BackendObligation { kind: "a".to_string(), status: "proved".to_string() },
        BackendObligation { kind: "b".to_string(), status: "open".to_string() },
    ];
    let store = store_with(rev);
    let q = store.query("bp1", "br1").ok().unwrap();
    assert_eq!(q.backend_plan, "bp1");
    assert_eq!(q.backend_revision, "br1");
    assert_eq!(q.backend_hash.0, digest(BYTES));
    assert_eq!(q.schedule_hash.0, "h".repeat(64));
    assert_eq!(q.target_hash.0, "t".repeat(64));
    assert_eq!(q.kernel_count, 2);
    assert_eq!(q.dispatch_count, 2);
    assert_eq!(q.binding_count, 5);
    assert_eq!(q.vector_widths, vec![1, 4]);
    assert_eq!(q.unroll_factors, vec![1]);
    assert!(!q.guarded);
    assert_eq!(q.open_obligations, 1);
}

#[test]
fn check_accepts_a_consistent_revision() {
    let store = store_with(revision());
    let report = store.check("bp1", "br1", BYTES).ok().unwrap();
    assert!(report.well_typed && report.equivalent_to_schedule && report.emittable);
    assert_eq!(report.query.open_obligations, 0);
    let mut sealed = revision();
    sealed.status = BackendStatus::Rejected;
    let report = store_with(sealed).check("bp1", "br1", BYTES).ok().unwrap();
    assert!(!report.emittable);
}

#[test]
fn check_rejects_each_inconsistency_with_its_code() {
    let store = store_with(revision());
    assert_eq!(store.check("bp9", "br1", BYTES).err().map(|e| e.code), Some(ErrorCode::BackendPlanNotFound));
    assert_eq!(store.check("bp1", "br9", BYTES).err().map(|e| e.code), Some(ErrorCode::BackendRevisionNotFound));
    assert_eq!(store.check("bp1", "br1", b"other").err().map(|e| e.code), Some(ErrorCode::BackendHashMismatch));

    let mut rev = revision();
    rev.certificate.schedule_node_coverage = vec!["sn9".to_string()];
    assert_eq!(store_with(rev).check("bp1", "br1", BYTES).err().map(|e| e.code), Some(ErrorCode::BackendCoverageInvalid));

    let mut rev = revision();
    rev.certificate.relation = "backend_similar_to_schedule".to_string();
    assert_eq!(store_with(rev).check("bp1", "br1", BYTES).err().map(|e| e.code), Some(ErrorCode::BackendEquivalenceUnproved));

    let mut rev = revision();
    rev.obligations = vec![BackendObligation { kind: "a".to_string(), status: "proved".to_string() }];
    assert_eq!(store_with(rev).check("bp1", "br1", BYTES).err().map(|e| e.code), Some(ErrorCode::BackendEquivalenceUnproved));
}

#[test]
fn verify_all_checks_every_revision_and_head() {
    let store = store_with(revision());
    assert!(store.verify_all(|_p: &BackendPlan, _r: &BackendRevision| BYTES.to_vec()).is_ok());
    assert_eq!(
        store.verify_all(|_p: &BackendPlan, _r: &BackendRevision| b"stale".to_vec()).err().map(|e| e.code),
        Some(ErrorCode::BackendHashMismatch)
    );
    let mut headless = store_with(revision());
    let mut plan = headless.plans.remove("bp1").unwrap();
    plan.head = "br9".to_string();
    headless.plans.insert("bp1".to_string(), plan);
    assert_eq!(
        headless.verify_all(|_p: &BackendPlan, _r: &BackendRevision| BYTES.to_vec()).err().map(|e| e.code),
        Some(ErrorCode::BackendRevisionNotFound)
    );
}
