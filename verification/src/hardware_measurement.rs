//! Publication of confidence-only hardware measurements of emitted artifacts.

use crate::backend::{
    backend_id_prefix, compiler_build_hash, spec_compiler_build_hash, ArtifactHash, ArtifactStore, BackendAllocator,
    CompilerBuildHash, DeviceFingerprintHash, MeasurementEvent, MeasurementHash, MeasurementStore,
    VersionedMeasurementEvent, MEASUREMENT_EVENT_SEMANTICS_VERSION,
};
use crate::backend_ir::{DeviceFingerprint, HardwareBenchmarkConfig, HardwareMeasurementRecord};
use crate::diagnostics::{AgentError, AgentResult, ErrorCode};
use crate::digest::{digest_text, domain_digest};
use crate::ids::MeasurementId;
use crate::target::TargetHash;
use crate::text::{decimal, str_eq};
use vstd::prelude::*;
use vstd::utf8::encode_utf8;

verus! {

/// Domain separator for device fingerprints (NUL-terminated).
pub open spec fn device_fingerprint_domain() -> Seq<char> {
    "agentir.device.fingerprint.v1\0"@
}

/// Domain separator for hardware measurement records (NUL-terminated).
pub open spec fn hardware_measurement_domain() -> Seq<char> {
    "agentir.measurement.hardware.v1\0"@
}

/// Computes the identity of a device fingerprint from its canonical bytes.
pub fn device_fingerprint_hash(encoded: &[u8]) -> (r: DeviceFingerprintHash)
    ensures
        r.0@ == domain_digest(encode_utf8(device_fingerprint_domain()), encoded@),
{
    let domain = "agentir.device.fingerprint.v1\0";
    DeviceFingerprintHash(digest_text(domain.as_bytes(), encoded))
}

/// Computes the identity of a hardware measurement from its canonical bytes.
pub fn measurement_hash(encoded: &[u8]) -> (r: MeasurementHash)
    ensures
        r.0@ == domain_digest(encode_utf8(hardware_measurement_domain()), encoded@),
{
    let domain = "agentir.measurement.hardware.v1\0";
    MeasurementHash(digest_text(domain.as_bytes(), encoded))
}

/// Whether some retained package has the artifact hash `hash`.
pub open spec fn artifact_retained(artifacts: ArtifactStore, hash: Seq<char>) -> bool {
    exists|i: int| 0 <= i < artifacts.packages.kv().len() && (#[trigger] artifacts.packages.kv()[i]).1.artifact_hash.0@ == hash
}

/// Whether every encoding that `encode` may give `device` digests to `hash`.
pub open spec fn device_hash_matches<D: Fn(&DeviceFingerprint) -> Vec<u8>>(
    encode: D,
    device: DeviceFingerprint,
    hash: Seq<char>,
) -> bool {
    forall|bytes: Vec<u8>| #[trigger] encode.ensures((&device,), bytes) ==> domain_digest(
        encode_utf8(device_fingerprint_domain()),
        bytes@,
    ) == hash
}

/// Whether a record names a retained artifact, the current compiler build and
/// the device it reports.
pub open spec fn measurement_provenance<D: Fn(&DeviceFingerprint) -> Vec<u8>>(
    artifacts: ArtifactStore,
    record: HardwareMeasurementRecord,
    encode: D,
) -> bool {
    &&& artifact_retained(artifacts, record.artifact_hash.0@)
    &&& record.compiler_build_hash.0@ == spec_compiler_build_hash()
    &&& device_hash_matches(encode, record.device, record.device_fingerprint_hash.0@)
}

fn artifact_hash_retained(artifacts: &ArtifactStore, hash: &str) -> (r: bool)
    ensures
        r == artifact_retained(*artifacts, hash@),
{
    let n = artifacts.packages.len();
    let mut i: usize = 0;
    while i < n
        invariant
            i <= n,
            n == artifacts.packages.kv().len(),
            forall|j: int| 0 <= j < i ==> (#[trigger] artifacts.packages.kv()[j]).1.artifact_hash.0@ != hash@,
        decreases n - i,
    {
        let (_, package) = artifacts.packages.entry_at(i);
        if str_eq(package.artifact_hash.0.as_str(), hash) {
            return true;
        }
        i = i + 1;
    }
    false
}

fn copy_counts(m: &crate::idmap::IdMap<u64>) -> crate::idmap::IdMap<u64> {
    m.copy()
}

/// Copies a record field by field.
fn copy_hardware_record(x: &HardwareMeasurementRecord) -> HardwareMeasurementRecord {
    HardwareMeasurementRecord {
        format_version: x.format_version,
        artifact_hash: ArtifactHash(x.artifact_hash.0.clone()),
        target_hash: TargetHash(x.target_hash.0.clone()),
        compiler_build_hash: CompilerBuildHash(x.compiler_build_hash.0.clone()),
        device_fingerprint_hash: DeviceFingerprintHash(x.device_fingerprint_hash.0.clone()),
        device: DeviceFingerprint {
            backend_api: x.device.backend_api.clone(),
            adapter_name: x.device.adapter_name.clone(),
            vendor_id: x.device.vendor_id,
            device_id: x.device.device_id,
            driver_info: match &x.device.driver_info {
                Some(s) => Some(s.clone()),
                None => None,
            },
            limits: copy_counts(&x.device.limits),
            runtime_version: x.device.runtime_version.clone(),
            compiler_version: x.device.compiler_version.clone(),
        },
        config: HardwareBenchmarkConfig {
            warmups: x.config.warmups,
            iterations: x.config.iterations,
            input_distribution: x.config.input_distribution.clone(),
            tensor_dimensions: x.config.tensor_dimensions.clone(),
        },
        min_ns: x.min_ns,
        median_ns: x.median_ns,
        p95_ns: x.p95_ns,
        max_ns: x.max_ns,
        guard_outcomes: copy_counts(&x.guard_outcomes),
        validation_status: x.validation_status.clone(),
        runtime_version: x.runtime_version.clone(),
        measurement_hash: MeasurementHash(x.measurement_hash.0.clone()),
    }
}

impl MeasurementStore {
    /// Publishes one runtime-created completed record after checking that it
    /// names a retained artifact, the current compiler build and the device it
    /// reports; `device_encoding` and `record_encoding` give the canonical
    /// bytes of a device fingerprint and of a record without its own hash.
    /// The store and the allocator are unchanged on error.
    pub fn publish<D: Fn(&DeviceFingerprint) -> Vec<u8>, M: Fn(&HardwareMeasurementRecord) -> Vec<u8>>(
        &mut self,
        allocator: &mut BackendAllocator,
        artifacts: &ArtifactStore,
        record: HardwareMeasurementRecord,
        device_encoding: D,
        record_encoding: M,
    ) -> (r: AgentResult<MeasurementId>)
        requires
            forall|x: &DeviceFingerprint| device_encoding.requires((x,)),
            forall|x: &HardwareMeasurementRecord| record_encoding.requires((x,)),
        ensures
            measurement_provenance(*artifacts, record, device_encoding) ==> r is Ok,
            !artifact_retained(*artifacts, record.artifact_hash.0@) || record.compiler_build_hash.0@
                != spec_compiler_build_hash() ==> (r matches Err(e) && e.code == ErrorCode::MeasurementEventOrderInvalid),
            r matches Err(e) ==> e.code == ErrorCode::MeasurementEventOrderInvalid && *final(self) == *old(self)
                && *final(allocator) == *old(allocator),
            r matches Ok(id) ==> ({
                let stored = final(self).records@[id@];
                &&& artifact_retained(*artifacts, record.artifact_hash.0@)
                &&& record.compiler_build_hash.0@ == spec_compiler_build_hash()
                &&& exists|b: Vec<u8>| #[trigger] device_encoding.ensures((&record.device,), b) && domain_digest(
                    encode_utf8(device_fingerprint_domain()),
                    b@,
                ) == record.device_fingerprint_hash.0@
                &&& final(allocator).counter(6) == crate::memory::sat_succ(old(allocator).counter(6))
                &&& forall|k: int| 0 <= k < 7 && k != 6 ==> final(allocator).counter(k) == old(allocator).counter(k)
                &&& id@ == backend_id_prefix(6) + decimal(final(allocator).counter(6) as nat)
                &&& final(self).records@ == old(self).records@.insert(id@, stored)
                &&& stored.artifact_hash == record.artifact_hash && stored.target_hash == record.target_hash
                &&& stored.compiler_build_hash == record.compiler_build_hash
                &&& stored.device_fingerprint_hash == record.device_fingerprint_hash && stored.device == record.device
                &&& stored.config == record.config && stored.guard_outcomes == record.guard_outcomes
                &&& stored.min_ns == record.min_ns && stored.median_ns == record.median_ns && stored.p95_ns == record.p95_ns
                &&& stored.max_ns == record.max_ns && stored.format_version == record.format_version
                &&& stored.validation_status == record.validation_status && stored.runtime_version == record.runtime_version
                &&& exists|b: Vec<u8>| #[trigger] record_encoding.ensures((&record,), b) && stored.measurement_hash.0@
                    == domain_digest(encode_utf8(hardware_measurement_domain()), b@)
                &&& final(self).events@.len() == old(self).events@.len() + 1
            }),
    {
        let build = compiler_build_hash();
        let mut provenance = artifact_hash_retained(artifacts, record.artifact_hash.0.as_str());
        if provenance {
            provenance = str_eq(record.compiler_build_hash.0.as_str(), build.0.as_str());
        }
        if provenance {
            let encoded = device_encoding(&record.device);
            let actual = device_fingerprint_hash(encoded.as_slice());
            provenance = str_eq(actual.0.as_str(), record.device_fingerprint_hash.0.as_str());
        }
        if !provenance {
            return Err(
                AgentError::new(
                    ErrorCode::MeasurementEventOrderInvalid,
                    "measurement provenance does not match a retained artifact/build/device",
                ),
            );
        }
        let encoded = record_encoding(&record);
        let hash = measurement_hash(encoded.as_slice());
        let mut record = record;
        record.measurement_hash = hash;
        let id = allocator.measurement();
        let event = VersionedMeasurementEvent {
            semantics_version: MEASUREMENT_EVENT_SEMANTICS_VERSION,
            event: MeasurementEvent {
                measurement: id.clone(),
                record: copy_hardware_record(&record),
                artifact_event_cursor: artifacts.events.len() as u64,
            },
        };
        self.records.insert(id.clone(), record);
        self.events.push(event);
        Ok(id)
    }
}

} // verus!
