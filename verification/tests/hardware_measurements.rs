use agentir_core::backend::{
    compiler_build_hash, ArtifactHash, ArtifactStore, BackendAllocator, BackendHash, CompilerBuildHash,
    DeviceFingerprintHash, MeasurementHash, MeasurementStore,
};
use agentir_core::backend_ir::{
    ArtifactCertificate, ArtifactManifest, ArtifactPackage, ArtifactStatus, BackendAnchor, BackendKind, DeviceFingerprint,
    HardwareBenchmarkConfig, HardwareMeasurementRecord, OfflineValidationReport,
};
use agentir_core::diagnostics::ErrorCode;
use agentir_core::hardware_measurement::{device_fingerprint_hash, measurement_hash};
use agentir_core::idmap::IdMap;
use agentir_core::impl_ir::ImplHash;
use agentir_core::memory::MemoryHash;
use agentir_core::schedule::ScheduleHash;
use agentir_core::semantic::SpecHash;
use agentir_core::target::TargetHash;
use sha2::{Digest, Sha256};

fn package(hash: &str) -> ArtifactPackage {
    ArtifactPackage {
        id: "art1".to_string(),
        manifest: ArtifactManifest {
            format: "agentir.wgsl.package".to_string(),
            format_version: 1,
            backend_kind: BackendKind::WebGpuWgslV1,
            anchor: BackendAnchor {
                spec_revision: "r1".to_string(),
                spec_hash: SpecHash("s".repeat(64)),
                impl_hash: ImplHash("i".repeat(64)),
                memory_hash: MemoryHash("m".repeat(64)),
                memory_plan: "mp1".to_string(),
                memory_revision: "mr1".to_string(),
                target_hash: TargetHash("t".repeat(64)),
                target_manifest: "tm1".to_string(),
                target_revision: "tr1".to_string(),
                schedule_hash: ScheduleHash("h".repeat(64)),
                schedule_plan: "sp1".to_string(),
                schedule_revision: "sr1".to_string(),
                numeric_contract: serde_json::Value::Null,
                backend_kind: BackendKind::WebGpuWgslV1,
            },
            backend_hash: BackendHash("b".repeat(64)),
            compiler_build_hash: compiler_build_hash(),
            modules: Vec::new(),
            entry_points: Vec::new(),
            binding_layouts: Vec::new(),
            dispatches: Vec::new(),
            guard: None,
            outputs: Vec::new(),
            proof_manifest: Vec::new(),
        },
        modules: Vec::new(),
        offline_validation: OfflineValidationReport {
            parsed: true,
            validated: true,
            validator: "naga".to_string(),
            diagnostics: Vec::new(),
        },
        status: ArtifactStatus::Validated,
        artifact_hash: ArtifactHash(hash.to_string()),
        certificate: ArtifactCertificate {
            relation: "artifact_equivalent_to_backend".to_string(),
            backend_hash: BackendHash("b".repeat(64)),
            compiler_build_hash: compiler_build_hash(),
            artifact_hash: ArtifactHash(hash.to_string()),
            conditions: Vec::new(),
            validator_version: 1,
        },
    }
}

fn device_bytes(d: &DeviceFingerprint) -> Vec<u8> {
    format!("{}/{}", d.backend_api, d.adapter_name).into_bytes()
}

fn record_bytes(r: &HardwareMeasurementRecord) -> Vec<u8> {
    format!("{}/{}", r.artifact_hash.0, r.min_ns).into_bytes()
}

fn labeled(label: &str, bytes: &[u8]) -> String {
    let mut data = label.as_bytes().to_vec();
    data.extend_from_slice(bytes);
    Sha256::digest(&data).iter().map(|b| format!("{b:02x}")).collect()
}

fn record(artifact: &str, device_hash: String) -> HardwareMeasurementRecord {
    HardwareMeasurementRecord {
        format_version: 1,
        artifact_hash: ArtifactHash(artifact.to_string()),
        target_hash: TargetHash("t".repeat(64)),
        compiler_build_hash: compiler_build_hash(),
        device_fingerprint_hash: DeviceFingerprintHash(device_hash),
        device: DeviceFingerprint {
            backend_api: "webgpu".to_string(),
            adapter_name: "gpu0".to_string(),
            vendor_id: None,
            device_id: None,
            driver_info: None,
            limits: IdMap::new(),
            runtime_version: "rt1".to_string(),
            compiler_version: "0.1.0".to_string(),
        },
        config: HardwareBenchmarkConfig {
            warmups: 1,
            iterations: 3,
            input_distribution: "uniform".to_string(),
            tensor_dimensions: vec![4],
        },
        min_ns: 10,
        median_ns: 20,
        p95_ns: 30,
        max_ns: 30,
        guard_outcomes: IdMap::new(),
        validation_status: "passed".to_string(),
        runtime_version: "rt1".to_string(),
        measurement_hash: MeasurementHash("pending".to_string()),
    }
}

fn artifacts() -> ArtifactStore {
    let mut store = ArtifactStore::new();
    store.packages.insert("art1".to_string(), package(&"a".repeat(64)));
    store
}

#[test]
fn hardware_identities_are_domain_separated() {
    assert_eq!(device_fingerprint_hash(b"x").0, labeled("agentir.device.fingerprint.v1\0", b"x"));
    assert_eq!(measurement_hash(b"x").0, labeled("agentir.measurement.hardware.v1\0", b"x"));
}

#[test]
fn publishing_a_hardware_measurement_assigns_a_measurement_identity() {
    let artifacts = artifacts();
    let mut store = MeasurementStore { records: IdMap::new(), events: Vec::new() };
    let mut allocator = BackendAllocator::new();
    let device_hash = labeled("agentir.device.fingerprint.v1\0", b"webgpu/gpu0");
    let id = store
        .publish(&mut allocator, &artifacts, record(&"a".repeat(64), device_hash), device_bytes, record_bytes)
        .unwrap();
    assert_eq!(id, "meas1");
    let stored = store.records.get("meas1").unwrap();
    let expected = labeled("agentir.measurement.hardware.v1\0", format!("{}/10", "a".repeat(64)).as_bytes());
    assert_eq!(stored.measurement_hash.0, expected);
    assert_eq!(store.events.len(), 1);
    assert_eq!(store.events[0].event.measurement, "meas1");
}

#[test]
fn hardware_measurements_must_name_a_retained_artifact_and_device() {
    let artifacts = artifacts();
    let mut store = MeasurementStore { records: IdMap::new(), events: Vec::new() };
    let mut allocator = BackendAllocator::new();
    let device_hash = labeled("agentir.device.fingerprint.v1\0", b"webgpu/gpu0");
    let unknown = store.publish(&mut allocator, &artifacts, record(&"z".repeat(64), device_hash), device_bytes, record_bytes);
    assert_eq!(unknown.unwrap_err().code, ErrorCode::MeasurementEventOrderInvalid);
    let wrong_device = store.publish(&mut allocator, &artifacts, record(&"a".repeat(64), "0".repeat(64)), device_bytes, record_bytes);
    assert_eq!(wrong_device.unwrap_err().code, ErrorCode::MeasurementEventOrderInvalid);
    let mut other_build = record(&"a".repeat(64), labeled("agentir.device.fingerprint.v1\0", b"webgpu/gpu0"));
    other_build.compiler_build_hash = CompilerBuildHash("0".repeat(64));
    let stale = store.publish(&mut allocator, &artifacts, other_build, device_bytes, record_bytes);
    assert_eq!(stale.unwrap_err().code, ErrorCode::MeasurementEventOrderInvalid);
    assert!(store.events.is_empty());
    assert_eq!(allocator, BackendAllocator::new());
}
