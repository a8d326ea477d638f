use agentir_core::artifact_check::{artifact_hash, verify_artifact};
use agentir_core::backend::{compiler_build_hash, ArtifactHash, ArtifactStore, BackendHash, BackendRevision, CompilerBuildHash};
use agentir_core::backend_ir::{
    ArtifactBindingLayout, ArtifactCertificate, ArtifactEntryPoint, ArtifactManifest, ArtifactModule, ArtifactPackage,
    ArtifactStatus, BackendAnchor, BackendBinding, BackendBindingAccess, BackendCertificate, BackendDispatch,
    BackendExpression, BackendExtent, BackendKernel, BackendKind, BackendOutput, BackendParameterBlock, BackendProgram,
    BackendStatement, BackendStatus, BackendValue, OfflineValidationReport,
};
use agentir_core::diagnostics::ErrorCode;
use agentir_core::idmap::IdMap;
use agentir_core::impl_ir::ImplHash;
use agentir_core::memory::MemoryHash;
use agentir_core::schedule::ScheduleHash;
use agentir_core::semantic::SpecHash;
use agentir_core::target::TargetHash;
use agentir_core::types::{DimExpr, ScalarType, Shape};
use sha2::{Digest, Sha256};

fn binding(number: u32) -> BackendBinding {
    BackendBinding {
        group: 0,
        binding: number,
        buffer: format!("buf{number}"),
        external_name: if number == 1 { Some("y".to_string()) } else { None },
        element_type: ScalarType::F32,
        shape: Shape(vec![DimExpr::Static(4)]),
        access: if number == 1 { BackendBindingAccess::Write } else { BackendBindingAccess::Read },
        alignment: 4,
        offset_elements: 0,
    }
}

fn output() -> BackendOutput {
    BackendOutput { name: "y".to_string(), binding: 1, buffer: "buf1".to_string() }
}

fn block() -> BackendParameterBlock {
    BackendParameterBlock { group: 0, binding: 2, entries: Vec::new(), byte_size: 0 }
}

fn kernel() -> BackendKernel {
    let mut values = IdMap::new();
    values.insert(
        "bv1".to_string(),
        BackendValue { id: "bv1".to_string(), expression: BackendExpression::InvocationIndex, ty: ScalarType::Index },
    );
    BackendKernel {
        id: "bk1".to_string(),
        entry_point: "main_bk1".to_string(),
        source_schedule_nodes: vec!["sn1".to_string()],
        bindings: vec![binding(0), binding(1)],
        parameter_block: block(),
        workgroup_size: [64, 1, 1],
        logical_extent: BackendExtent::Static { value: 4 },
        serial: false,
        vector_width: 1,
        unroll_factor: 1,
        values,
        statements: vec![BackendStatement::Store { binding: 1, index: "bv1".to_string(), value: "bv1".to_string() }],
        outputs: vec![output()],
        lowering_method: "structural".to_string(),
    }
}

fn dispatch() -> BackendDispatch {
    BackendDispatch {
        order: 0,
        kernel: "bk1".to_string(),
        workgroups: [BackendExtent::Static { value: 1 }, BackendExtent::Static { value: 1 }, BackendExtent::Static { value: 1 }],
        workgroup_size: [64, 1, 1],
        bounds_checked: true,
    }
}

fn revision() -> BackendRevision {
    let mut kernels = IdMap::new();
    kernels.insert("bk1".to_string(), kernel());
    BackendRevision {
        id: "br1".to_string(),
        parents: Vec::new(),
        program: BackendProgram {
            kernels,
            kernel_order: vec!["bk1".to_string()],
            dispatches: vec![dispatch()],
            guard: None,
            outputs: vec![output()],
        },
        backend_hash: BackendHash("b".repeat(64)),
        status: BackendStatus::Proved,
        certificate: BackendCertificate {
            relation: "backend_equivalent_to_schedule".to_string(),
            schedule_hash: ScheduleHash("h".repeat(64)),
            backend_hash: BackendHash("b".repeat(64)),
            schedule_node_coverage: vec!["sn1".to_string()],
            conditions: Vec::new(),
            semantics_version: 1,
            validator_version: 1,
        },
        evidence: Vec::new(),
        obligations: Vec::new(),
    }
}

const WGSL: &str = "@compute @workgroup_size(64)\nfn main_bk1(@builtin(global_invocation_id) id: vec3<u32>) {}\n";

fn anchor() -> BackendAnchor {
    BackendAnchor {
        spec_revision: "r1".to_string(),
        spec_hash: SpecHash("s".repeat(64)),
        impl_hash: ImplHash("i".repeat(64)),
        memory_hash: MemoryHash("m".repeat(64)),
        memory_plan: "mp1".to_string(),
        memory_revision: "mr1".to_string(),
        target_hash: TargetHash("t".repeat(64)),
        target_manifest: "tm1".to_string(),
        target_revision: "tr1".to_string(),
        schedule_hash: ScheduleHash("h".repeat(64)),
        schedule_plan: "sp1".to_string(),
        schedule_revision: "sr1".to_string(),
        numeric_contract: serde_json::Value::Null,
        backend_kind: BackendKind::WebGpuWgslV1,
    }
}

/// Stand-in canonical bytes: any deterministic encoding of the package's
/// hashed content serves the checks here.
fn encode(p: &ArtifactPackage) -> Vec<u8> {
    let mut text = format!("{}|{}|", p.manifest.format, p.manifest.backend_hash.0);
    for m in &p.modules {
        text.push_str(&m.wgsl);
    }
    text.into_bytes()
}

fn hash_of(bytes: &[u8]) -> String {
    let mut data = b"agentir.artifact.wgsl.package.v1\0".to_vec();
    data.extend_from_slice(bytes);
    Sha256::digest(&data).iter().map(|b| format!("{b:02x}")).collect()
}

fn package() -> ArtifactPackage {
    let mut p = ArtifactPackage {
        id: "art1".to_string(),
        manifest: ArtifactManifest {
            format: "agentir.wgsl.package".to_string(),
            format_version: 1,
            backend_kind: BackendKind::WebGpuWgslV1,
            anchor: anchor(),
            backend_hash: BackendHash("b".repeat(64)),
            compiler_build_hash: compiler_build_hash(),
            modules: vec!["am1".to_string()],
            entry_points: vec![ArtifactEntryPoint {
                module: "am1".to_string(),
                name: "main_bk1".to_string(),
                kernel: "bk1".to_string(),
                workgroup_size: [64, 1, 1],
            }],
            binding_layouts: vec![ArtifactBindingLayout {
                kernel: "bk1".to_string(),
                storage_bindings: vec![binding(0), binding(1)],
                parameter_block: block(),
                logical_extent: BackendExtent::Static { value: 4 },
                outputs: vec![output()],
            }],
            dispatches: vec![dispatch()],
            guard: None,
            outputs: vec![output()],
            proof_manifest: Vec::new(),
        },
        modules: vec![ArtifactModule {
            id: "am1".to_string(),
            name: "kernels".to_string(),
            wgsl: WGSL.to_string(),
            entry_points: vec!["main_bk1".to_string()],
        }],
        offline_validation: OfflineValidationReport {
            parsed: true,
            validated: true,
            validator: "naga".to_string(),
            diagnostics: Vec::new(),
        },
        status: ArtifactStatus::Validated,
        artifact_hash: ArtifactHash(String::new()),
        certificate: ArtifactCertificate {
            relation: "artifact_equivalent_to_backend".to_string(),
            backend_hash: BackendHash("b".repeat(64)),
            compiler_build_hash: compiler_build_hash(),
            artifact_hash: ArtifactHash(String::new()),
            conditions: Vec::new(),
            validator_version: 1,
        },
    };
    seal_hash(&mut p);
    p
}

fn seal_hash(p: &mut ArtifactPackage) {
    let h = hash_of(&encode(p));
    p.artifact_hash = ArtifactHash(h.clone());
    p.certificate.artifact_hash = ArtifactHash(h);
}

fn code_of(p: &ArtifactPackage) -> Option<ErrorCode> {
    verify_artifact(p, &revision(), &encode(p)).err().map(|e| e.code)
}

#[test]
fn artifact_hash_is_the_domain_separated_digest() {
    let h = artifact_hash(b"abc");
    assert_eq!(h.0, hash_of(b"abc"));
    assert_ne!(h.0, hash_of(b"abd"));
    assert_eq!(h.0.len(), 64);
}

#[test]
fn a_consistent_package_verifies() {
    assert_eq!(code_of(&package()), None);
}

#[test]
fn manifest_must_match_the_backend_program() {
    let mut p = package();
    p.manifest.dispatches[0].workgroup_size = [32, 1, 1];
    seal_hash(&mut p);
    assert_eq!(code_of(&p), Some(ErrorCode::ArtifactManifestInvalid));

    let mut p = package();
    p.manifest.format = "agentir.wgsl.other".to_string();
    seal_hash(&mut p);
    assert_eq!(code_of(&p), Some(ErrorCode::ArtifactManifestInvalid));

    let mut p = package();
    p.manifest.compiler_build_hash = CompilerBuildHash("0".repeat(64));
    seal_hash(&mut p);
    assert_eq!(code_of(&p), Some(ErrorCode::ArtifactManifestInvalid));
}

#[test]
fn binding_layouts_must_be_the_kernel_abi() {
    let mut p = package();
    p.manifest.binding_layouts[0].storage_bindings[1].alignment = 16;
    seal_hash(&mut p);
    assert_eq!(code_of(&p), Some(ErrorCode::ArtifactManifestInvalid));

    let mut p = package();
    p.manifest.binding_layouts[0].storage_bindings[0].shape = Shape(vec![DimExpr::Static(5)]);
    seal_hash(&mut p);
    assert_eq!(code_of(&p), Some(ErrorCode::ArtifactManifestInvalid));

    let mut p = package();
    p.manifest.binding_layouts.clear();
    seal_hash(&mut p);
    assert_eq!(code_of(&p), Some(ErrorCode::ArtifactManifestInvalid));
}

#[test]
fn offline_validation_must_have_succeeded() {
    let mut p = package();
    p.offline_validation.validated = false;
    seal_hash(&mut p);
    assert_eq!(code_of(&p), Some(ErrorCode::WgslValidationFailed));
}

#[test]
fn modules_and_entry_points_must_be_consistent() {
    let mut p = package();
    p.modules[0].wgsl = WGSL.replace('\n', "\r\n");
    seal_hash(&mut p);
    assert_eq!(code_of(&p), Some(ErrorCode::ArtifactManifestInvalid));

    let mut p = package();
    p.modules[0].wgsl = WGSL.replace("fn main_bk1(", "fn other(");
    seal_hash(&mut p);
    assert_eq!(code_of(&p), Some(ErrorCode::ArtifactManifestInvalid));

    let mut p = package();
    p.manifest.entry_points[0].module = "am9".to_string();
    seal_hash(&mut p);
    assert_eq!(code_of(&p), Some(ErrorCode::ArtifactManifestInvalid));

    let mut p = package();
    p.manifest.entry_points[0].workgroup_size = [1, 1, 1];
    seal_hash(&mut p);
    assert_eq!(code_of(&p), Some(ErrorCode::ArtifactManifestInvalid));

    let mut p = package();
    p.manifest.modules = vec!["am2".to_string()];
    seal_hash(&mut p);
    assert_eq!(code_of(&p), Some(ErrorCode::ArtifactManifestInvalid));
}

#[test]
fn certificate_must_name_this_backend_and_package() {
    let mut p = package();
    p.certificate.relation = "artifact_similar_to_backend".to_string();
    seal_hash(&mut p);
    assert_eq!(code_of(&p), Some(ErrorCode::ArtifactEquivalenceUnproved));

    let mut p = package();
    p.certificate.artifact_hash = ArtifactHash("0".repeat(64));
    assert_eq!(code_of(&p), Some(ErrorCode::ArtifactEquivalenceUnproved));
}

#[test]
fn package_hash_must_match_its_bytes() {
    let mut p = package();
    p.modules[0].name = "renamed".to_string();
    p.modules[0].wgsl.push_str("// changed\n");
    assert_eq!(code_of(&p), Some(ErrorCode::ArtifactHashMismatch));
}

#[test]
fn artifact_store_check_reports_on_stored_packages() {
    let mut store = ArtifactStore::new();
    assert_eq!(store.check("art1", &revision(), b"").err().map(|e| e.code), Some(ErrorCode::ArtifactNotFound));
    let p = package();
    let bytes = encode(&p);
    store.packages.insert("art1".to_string(), p);
    let report = store.check("art1", &revision(), &bytes).ok().unwrap();
    assert!(report.offline_valid && report.equivalent_to_backend);
    assert_eq!(report.query.artifact, "art1");
    assert_eq!(report.query.module_count, 1);
    assert_eq!(report.query.entry_point_count, 1);
    assert_eq!(report.query.wgsl_bytes, WGSL.len());
    assert_eq!(
        store.check("art1", &revision(), b"other").err().map(|e| e.code),
        Some(ErrorCode::ArtifactHashMismatch)
    );
}
