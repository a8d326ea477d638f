use agentir_core::cpu::{
    CpuArtifactAnchor, CpuArtifactDraft, CpuArtifactHash, CpuCompilerBuildHash, CpuArtifactPackage, CpuArtifactStore, CpuBinding, CpuConstant, CpuFunction,
    CpuInstruction, CpuOutput, CpuValueType,
};
use agentir_core::cpu_measurement::{
    aggregate_cpu_durations, CpuBenchmarkConfig, CpuClockSource, CpuHostDescriptor, CpuMeasurementDraft,
    CpuMeasurementRecord, CpuMeasurementStore, MeasurementEncodings,
};
use agentir_core::diagnostics::ErrorCode;
use agentir_core::idmap::IdMap;
use agentir_core::resources::ResourceLimits;
use agentir_core::impl_ir::ImplHash;
use agentir_core::memory::MemoryHash;
use agentir_core::schedule::ScheduleHash;
use agentir_core::semantic::SpecHash;
use agentir_core::target::TargetHash;
use sha2::{Digest, Sha256};

fn anchor() -> CpuArtifactAnchor {
    CpuArtifactAnchor {
        spec_revision: "r1".to_string(),
        spec_hash: SpecHash("s".repeat(64)),
        impl_hash: ImplHash("i".repeat(64)),
        memory_hash: MemoryHash("m".repeat(64)),
        memory_plan: "mp1".to_string(),
        memory_revision: "mr1".to_string(),
        target_hash: TargetHash("t".repeat(64)),
        target_manifest: "tm1".to_string(),
        target_revision: "tr1".to_string(),
        schedule_hash: ScheduleHash("h".repeat(64)),
        schedule_plan: "sp1".to_string(),
        schedule_revision: "sr1".to_string(),
    }
}

fn draft(output: &str) -> CpuArtifactDraft {
    CpuArtifactDraft {
        anchor: anchor(),
        bindings: vec![CpuBinding { name: "x".to_string(), register: 0, value_type: CpuValueType::F32, extent: None }],
        constants: vec![CpuConstant { index: 0, bits: "0x3f800000".to_string() }],
        functions: vec![CpuFunction {
            name: "main".to_string(),
            register_count: 2,
            instructions: vec![CpuInstruction::AddF32 { output: 1, lhs: 0, rhs: 0 }],
        }],
        outputs: vec![CpuOutput { name: output.to_string(), register: 1, value_type: CpuValueType::F32 }],
    }
}

fn encode(package: &CpuArtifactPackage) -> Vec<u8> {
    let outputs: Vec<&str> = package.outputs.iter().map(|o| o.name.as_str()).collect();
    format!("{}|{}|{}", package.format, package.anchor.schedule_hash.0, outputs.join(",")).into_bytes()
}

fn package_hash(bytes: &[u8]) -> String {
    let mut input = b"agentir.artifact.cpu.scalar.v1\0".to_vec();
    input.extend_from_slice(bytes);
    Sha256::digest(&input).iter().map(|b| format!("{b:02x}")).collect()
}

#[test]
fn emitting_a_draft_publishes_a_content_addressed_package() {
    let mut store = CpuArtifactStore::new();
    let report = store.emit("sp1".to_string(), "sr1".to_string(), 7, draft("y"), encode).unwrap();
    let expected = package_hash(format!("agentir.cpu.scalar.package|{}|y", "h".repeat(64)).as_bytes());
    assert_eq!(report.query.cpu_artifact_hash.0, expected);
    assert_eq!(report.query.cpu_artifact, format!("cpuart-{}", &expected[..16]));
    assert_eq!(report.query.instruction_count, 1);
    assert!(report.offline_valid && report.equivalent_to_schedule);
    let package = store.package(&report.query.cpu_artifact).unwrap();
    assert_eq!(package.certificate.cpu_artifact_hash.0, expected);
    assert_eq!(package.certificate.schedule_hash.0, "h".repeat(64));
    assert_eq!(store.events.len(), 1);
    assert_eq!(store.events[0].event.schedule_event_cursor, 7);
    assert_eq!(store.events[0].event.package.id, report.query.cpu_artifact);
}

#[test]
fn emitting_the_same_package_again_only_rechecks_it() {
    let mut store = CpuArtifactStore::new();
    let first = store.emit("sp1".to_string(), "sr1".to_string(), 0, draft("y"), encode).unwrap();
    let second = store.emit("sp1".to_string(), "sr1".to_string(), 1, draft("y"), encode).unwrap();
    assert_eq!(first.query.cpu_artifact, second.query.cpu_artifact);
    assert_eq!(format!("{:?}", first.query), format!("{:?}", second.query));
    assert_eq!(store.events.len(), 1);
    assert_eq!(store.packages.len(), 1);
    let other = store.emit("sp1".to_string(), "sr1".to_string(), 2, draft("z"), encode).unwrap();
    assert_ne!(other.query.cpu_artifact, first.query.cpu_artifact);
    assert_eq!(store.events.len(), 2);
}

#[test]
fn an_invalid_draft_is_not_published() {
    let mut store = CpuArtifactStore::new();
    let mut bad = draft("y");
    bad.functions[0].name = "entry".to_string();
    let error = store.emit("sp1".to_string(), "sr1".to_string(), 0, bad, encode).unwrap_err();
    assert_eq!(error.code, ErrorCode::CpuBytecodeUnsupported);
    assert!(store.events.is_empty());
}

#[test]
fn an_encoding_that_ignores_identity_fields_is_required() {
    let mut store = CpuArtifactStore::new();
    let unstable = |p: &CpuArtifactPackage| p.id.clone().into_bytes();
    let error = store.emit("sp1".to_string(), "sr1".to_string(), 0, draft("y"), unstable).unwrap_err();
    assert_eq!(error.code, ErrorCode::CpuArtifactHashMismatch);
    assert!(store.events.is_empty());
}

fn measurement_limits() -> ResourceLimits {
    ResourceLimits {
        memory_layout_entries: 64,
        memory_buffers_per_plan: 64,
        memory_operations_per_plan: 64,
        memory_accesses_per_plan: 256,
        memory_alias_domains: 64,
        memory_alias_facts: 1024,
        memory_lifetime_points: 64,
        memory_lifetime_uses: 256,
        memory_allocation_bytes_per_buffer: 1 << 20,
        memory_total_allocation_bytes: 1 << 24,
        memory_guard_dependencies: 8,
        memory_guard_depth: 4,
        memory_fallback_depth: 4,
        memory_reuse_attempts: 8,
        memory_obligations: 16,
        memory_canonical_bytes: 1 << 20,
        memory_plans_per_workspace: 16,
        memory_revisions_per_workspace: 64,
        memory_events: 64,
        benchmark_warmups: 4,
        benchmark_iterations: 16,
    }
}

fn measurement_draft(artifacts: &CpuArtifactStore, clock: CpuClockSource) -> CpuMeasurementDraft {
    let id = artifacts.packages.entry_at(0).0.clone();
    let package = artifacts.package(&id).unwrap();
    let samples = vec![30, 10, 20];
    let mut inputs = IdMap::new();
    inputs.insert("x".to_string(), serde_json::Value::from(1.5));
    let mut outputs = IdMap::new();
    outputs.insert("y".to_string(), serde_json::Value::from(3.0));
    CpuMeasurementDraft {
        cpu_artifact: id.clone(),
        cpu_artifact_hash: CpuArtifactHash(package.cpu_artifact_hash.0.clone()),
        compiler_build_hash: CpuCompilerBuildHash(package.compiler_build_hash.0.clone()),
        runtime_version: "rt1".to_string(),
        config: CpuBenchmarkConfig::v1(1, 3),
        inputs,
        host: CpuHostDescriptor {
            format_version: 1,
            operating_system: "linux".to_string(),
            architecture: "x86_64".to_string(),
            family: "unix".to_string(),
            runtime_version: "rt1".to_string(),
            clock_source: clock,
        },
        aggregates: aggregate_cpu_durations(&samples).unwrap(),
        raw_duration_ns: samples,
        outputs,
    }
}

fn encode_parts(record: &CpuMeasurementRecord) -> MeasurementEncodings {
    MeasurementEncodings {
        config: format!("{}/{}", record.config.warmups, record.config.iterations).into_bytes(),
        inputs: b"x=1.5".to_vec(),
        host: record.host.operating_system.clone().into_bytes(),
        outputs: b"y=3".to_vec(),
        record: format!("{}|{}|{}", record.cpu_artifact, record.cpu_input_hash.0, record.output_hash.0).into_bytes(),
    }
}

fn labeled(label: &str, bytes: &[u8]) -> String {
    let mut data = label.as_bytes().to_vec();
    data.extend_from_slice(bytes);
    Sha256::digest(&data).iter().map(|b| format!("{b:02x}")).collect()
}

#[test]
fn publishing_a_measurement_assigns_the_next_identity() {
    let mut artifacts = CpuArtifactStore::new();
    artifacts.emit("sp1".to_string(), "sr1".to_string(), 0, draft("y"), encode).unwrap();
    let mut store = CpuMeasurementStore::new();
    let draft = measurement_draft(&artifacts, CpuClockSource::SyntheticTestFixtureV1);
    let record = store.publish(&artifacts, draft, 9, &measurement_limits(), encode_parts).unwrap();
    assert_eq!(record.id, "cpum1");
    assert_eq!(store.next_id, 1);
    assert_eq!(record.cpu_input_hash.0, labeled("agentir.cpu.benchmark.input.v1\0", b"x=1.5"));
    assert_eq!(record.output_hash.0, labeled("agentir.cpu.measurement.output.v1\0", b"y=3"));
    assert_eq!(store.events.len(), 1);
    assert_eq!(store.events[0].event.cpu_artifact_event_cursor, 9);
    assert_eq!(store.query("cpum1").unwrap().cpu_measurement_hash.0, record.cpu_measurement_hash.0);
    assert_eq!(format!("{:?}", store.query("cpum1").unwrap()), format!("{record:?}"));
    assert_eq!(record.raw_duration_ns, vec![30, 10, 20]);
    assert_eq!(record.host.operating_system, "linux");
    let second = store
        .publish(&artifacts, measurement_draft(&artifacts, CpuClockSource::SyntheticTestFixtureV1), 9, &measurement_limits(), encode_parts)
        .unwrap();
    assert_eq!(second.id, "cpum2");
}

#[test]
fn publishing_refuses_mismatched_or_mixed_measurements() {
    let mut artifacts = CpuArtifactStore::new();
    artifacts.emit("sp1".to_string(), "sr1".to_string(), 0, draft("y"), encode).unwrap();
    let mut store = CpuMeasurementStore::new();
    let mut missing = measurement_draft(&artifacts, CpuClockSource::SyntheticTestFixtureV1);
    missing.cpu_artifact = "cpuart-0000000000000000".to_string();
    assert_eq!(
        store.publish(&artifacts, missing, 0, &measurement_limits(), encode_parts).unwrap_err().code,
        ErrorCode::CpuArtifactNotFound
    );
    let mut changed = measurement_draft(&artifacts, CpuClockSource::SyntheticTestFixtureV1);
    changed.cpu_artifact_hash.0 = "0".repeat(64);
    assert_eq!(
        store.publish(&artifacts, changed, 0, &measurement_limits(), encode_parts).unwrap_err().code,
        ErrorCode::CpuArtifactHashMismatch
    );
    let mut short = measurement_draft(&artifacts, CpuClockSource::SyntheticTestFixtureV1);
    short.raw_duration_ns.pop();
    assert_eq!(
        store.publish(&artifacts, short, 0, &measurement_limits(), encode_parts).unwrap_err().code,
        ErrorCode::CpuMeasurementHashMismatch
    );
    assert!(store.events.is_empty());
    store
        .publish(&artifacts, measurement_draft(&artifacts, CpuClockSource::SyntheticTestFixtureV1), 0, &measurement_limits(), encode_parts)
        .unwrap();
    assert_eq!(
        store
            .publish(&artifacts, measurement_draft(&artifacts, CpuClockSource::ProductionMonotonicV1), 0, &measurement_limits(), encode_parts)
            .unwrap_err()
            .code,
        ErrorCode::CpuMeasurementConfigInvalid
    );
    store.next_id = u64::MAX;
    assert_eq!(
        store
            .publish(&artifacts, measurement_draft(&artifacts, CpuClockSource::SyntheticTestFixtureV1), 0, &measurement_limits(), encode_parts)
            .unwrap_err()
            .code,
        ErrorCode::CpuMeasurementOverflow
    );
    assert_eq!(store.events.len(), 1);
}
