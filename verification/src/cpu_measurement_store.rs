//! Publication of runtime measurement drafts into the measurement store.

use crate::cpu::{CpuArtifactHash, CpuArtifactPackage, CpuArtifactStore, CpuCompilerBuildHash};
use crate::cpu_measurement::{
    config_outcome, cpu_benchmark_config_hash, cpu_host_fingerprint_hash, cpu_input_hash, cpu_measurement_hash,
    cpu_output_hash, record_hashes_valid, record_provenance_valid, verify_cpu_measurement, CpuBenchmarkConfigHash,
    CpuHostDescriptor, CpuHostFingerprintHash, CpuInputHash, CpuMeasurementDraft, CpuMeasurementEvent, CpuMeasurementHash,
    CpuMeasurementRecord, CpuMeasurementStore, CpuOutputHash, MeasurementEncodings, VersionedCpuMeasurementEvent,
    aggregates_of, nondecreasing, CPU_BENCHMARK_CONFIG_VERSION,
    CPU_MEASUREMENT_EVENT_SEMANTICS_VERSION, CPU_MEASUREMENT_FORMAT_VERSION,
};
use crate::diagnostics::{AgentError, AgentResult, ErrorCode};
use crate::idmap::{sorted_kv, Duplicate, IdMap};
use crate::json::clone_json;
use crate::resources::ResourceLimits;
use crate::text::{decimal, prefixed_decimal, seq_less, str_eq};
use vstd::prelude::*;

verus! {

impl Duplicate for serde_json::Value {
    open spec fn same_content(&self, copy: &Self) -> bool {
        *copy == *self
    }

    fn duplicate(&self) -> (r: Self) {
        clone_json(self)
    }
}

/// Copies a table of JSON values, entry by entry.
fn copy_values(m: &IdMap<serde_json::Value>) -> (r: IdMap<serde_json::Value>)
    ensures
        r.kv() == m.kv(),
{
    let n = m.len();
    let mut out: IdMap<serde_json::Value> = IdMap::new();
    let mut i: usize = 0;
    while i < n
        invariant
            n == m.kv().len(),
            sorted_kv(m.kv()),
            i <= n,
            out.kv() == m.kv().take(i as int),
        decreases n - i,
    {
        let (k, v) = m.entry_at(i);
        proof {
            if i > 0 {
                assert(out.kv().last() == m.kv()[i - 1]);
                assert(seq_less(m.kv()[i - 1].0, m.kv()[i as int].0));
            }
        }
        out.push_ordered(k.clone(), clone_json(v));
        proof {
            assert(m.kv().take(i + 1) =~= m.kv().take(i as int).push(m.kv()[i as int]));
        }
        i = i + 1;
    }
    proof {
        assert(m.kv().take(n as int) =~= m.kv());
    }
    out
}

/// Whether two records hold the same data: equal fields, with sample vectors
/// and value tables compared by their contents.
pub open spec fn record_same(a: CpuMeasurementRecord, b: CpuMeasurementRecord) -> bool {
    &&& a.id == b.id
    &&& a.format == b.format
    &&& a.format_version == b.format_version
    &&& a.cpu_artifact == b.cpu_artifact
    &&& a.cpu_artifact_hash == b.cpu_artifact_hash
    &&& a.compiler_build_hash == b.compiler_build_hash
    &&& a.runtime_version == b.runtime_version
    &&& a.config == b.config
    &&& a.cpu_benchmark_config_hash == b.cpu_benchmark_config_hash
    &&& a.inputs.kv() == b.inputs.kv()
    &&& a.cpu_input_hash == b.cpu_input_hash
    &&& a.host == b.host
    &&& a.cpu_host_fingerprint_hash == b.cpu_host_fingerprint_hash
    &&& a.raw_duration_ns@ == b.raw_duration_ns@
    &&& a.aggregates == b.aggregates
    &&& a.outputs.kv() == b.outputs.kv()
    &&& a.output_hash == b.output_hash
    &&& a.cpu_measurement_hash == b.cpu_measurement_hash
}

/// Copies a record field by field.
fn copy_record(x: &CpuMeasurementRecord) -> (r: CpuMeasurementRecord)
    ensures
        record_same(r, *x),
{
    CpuMeasurementRecord {
        id: x.id.clone(),
        format: x.format.clone(),
        format_version: x.format_version,
        cpu_artifact: x.cpu_artifact.clone(),
        cpu_artifact_hash: CpuArtifactHash(x.cpu_artifact_hash.0.clone()),
        compiler_build_hash: CpuCompilerBuildHash(x.compiler_build_hash.0.clone()),
        runtime_version: x.runtime_version.clone(),
        config: x.config,
        cpu_benchmark_config_hash: CpuBenchmarkConfigHash(x.cpu_benchmark_config_hash.0.clone()),
        inputs: copy_values(&x.inputs),
        cpu_input_hash: CpuInputHash(x.cpu_input_hash.0.clone()),
        host: CpuHostDescriptor {
            format_version: x.host.format_version,
            operating_system: x.host.operating_system.clone(),
            architecture: x.host.architecture.clone(),
            family: x.host.family.clone(),
            runtime_version: x.host.runtime_version.clone(),
            clock_source: x.host.clock_source,
        },
        cpu_host_fingerprint_hash: CpuHostFingerprintHash(x.cpu_host_fingerprint_hash.0.clone()),
        raw_duration_ns: x.raw_duration_ns.clone(),
        aggregates: x.aggregates,
        outputs: copy_values(&x.outputs),
        output_hash: CpuOutputHash(x.output_hash.0.clone()),
        cpu_measurement_hash: CpuMeasurementHash(x.cpu_measurement_hash.0.clone()),
    }
}

/// The first check that publishing `draft` into `store` fails before any
/// record is built: the artifact must be retained with the draft's hashes,
/// one store holds one clock source, and the identity counter must not be
/// exhausted.
pub open spec fn publication_failure(
    store: CpuMeasurementStore,
    artifacts: CpuArtifactStore,
    draft: CpuMeasurementDraft,
) -> Option<ErrorCode> {
    if !artifacts.packages@.contains_key(draft.cpu_artifact@) {
        Some(ErrorCode::CpuArtifactNotFound)
    } else if artifacts.packages@[draft.cpu_artifact@].cpu_artifact_hash.0@ != draft.cpu_artifact_hash.0@
        || artifacts.packages@[draft.cpu_artifact@].compiler_build_hash.0@ != draft.compiler_build_hash.0@ {
        Some(ErrorCode::CpuArtifactHashMismatch)
    } else if store.records.kv().len() > 0 && store.records.kv()[0].1.host.clock_source != draft.host.clock_source {
        Some(ErrorCode::CpuMeasurementConfigInvalid)
    } else if store.next_id == u64::MAX {
        Some(ErrorCode::CpuMeasurementOverflow)
    } else {
        None
    }
}

/// Whether `x` and `y` agree on every field but their five hashes, with
/// texts compared by content.
pub open spec fn same_but_hashes(x: CpuMeasurementRecord, y: CpuMeasurementRecord) -> bool {
    &&& x.id@ == y.id@
    &&& x.format@ == y.format@
    &&& x.format_version == y.format_version
    &&& x.cpu_artifact@ == y.cpu_artifact@
    &&& x.cpu_artifact_hash.0@ == y.cpu_artifact_hash.0@
    &&& x.compiler_build_hash.0@ == y.compiler_build_hash.0@
    &&& x.runtime_version@ == y.runtime_version@
    &&& x.config == y.config
    &&& x.inputs == y.inputs
    &&& x.host == y.host
    &&& x.raw_duration_ns == y.raw_duration_ns
    &&& x.aggregates == y.aggregates
    &&& x.outputs == y.outputs
}

/// Whether `encode` encodes the configuration, inputs, host and outputs of a
/// record independently of its hashes, and the whole record independently of
/// its own measurement hash.
pub open spec fn encoding_stable<F: Fn(&CpuMeasurementRecord) -> MeasurementEncodings>(encode: F) -> bool {
    forall|x: CpuMeasurementRecord, y: CpuMeasurementRecord, a: MeasurementEncodings, b: MeasurementEncodings|
        same_but_hashes(x, y) && #[trigger] encode.ensures((&x,), a) && #[trigger] encode.ensures((&y,), b) ==> {
            &&& a.config@ == b.config@
            &&& a.inputs@ == b.inputs@
            &&& a.host@ == b.host@
            &&& a.outputs@ == b.outputs@
            &&& (x.cpu_benchmark_config_hash.0@ == y.cpu_benchmark_config_hash.0@ && x.cpu_input_hash.0@ == y.cpu_input_hash.0@
                && x.cpu_host_fingerprint_hash.0@ == y.cpu_host_fingerprint_hash.0@ && x.output_hash.0@ == y.output_hash.0@
                ==> a.record@ == b.record@)
        }
}

/// Whether a record built from `d` is valid against the retained package `p`:
/// the draft names `p`, its runtime and host are described, its samples match
/// the configuration, and its aggregates are those of its samples.
pub open spec fn draft_publishable(d: CpuMeasurementDraft, p: CpuArtifactPackage) -> bool {
    &&& d.cpu_artifact@ == p.id@
    &&& d.runtime_version@ == d.host.runtime_version@
    &&& d.runtime_version@.len() > 0
    &&& d.host.format_version == 1
    &&& d.host.operating_system@.len() > 0
    &&& d.host.architecture@.len() > 0
    &&& d.host.family@.len() > 0
    &&& d.config.format_version == CPU_BENCHMARK_CONFIG_VERSION
    &&& d.raw_duration_ns@.len() == d.config.iterations
    &&& exists|s: Seq<u64>| nondecreasing(s) && s.to_multiset() == d.raw_duration_ns@.to_multiset() && s.len()
        == d.raw_duration_ns@.len() && d.aggregates == #[trigger] aggregates_of(s)
}

impl CpuMeasurementStore {
    /// Atomically validates and publishes one runtime-created draft as the
    /// record `cpum` followed by the next sequence number; `encode` gives the
    /// canonical encodings of a record's hash-covered parts. The store is
    /// unchanged on every error.
    pub fn publish<F: Fn(&CpuMeasurementRecord) -> MeasurementEncodings>(
        &mut self,
        artifacts: &CpuArtifactStore,
        draft: CpuMeasurementDraft,
        artifact_event_cursor: u64,
        limits: &ResourceLimits,
        encode: F,
    ) -> (r: AgentResult<CpuMeasurementRecord>)
        requires
            forall|x: &CpuMeasurementRecord| encode.requires((x,)),
        ensures
            publication_failure(*old(self), *artifacts, draft) matches Some(c) ==> (r matches Err(e) && e.code == c),
            publication_failure(*old(self), *artifacts, draft) is None ==> (config_outcome(draft.config, *limits) matches Err(c)
                ==> (r matches Err(e) && e.code == c)),
            r is Err ==> *final(self) == *old(self),
            publication_failure(*old(self), *artifacts, draft) is None && config_outcome(draft.config, *limits) is Ok
                && draft_publishable(draft, artifacts.packages@[draft.cpu_artifact@]) && encoding_stable(encode) ==> r is Ok,
            r matches Ok(published) ==> ({
                let id = published.id@;
                let stored = final(self).records@[id];
                &&& publication_failure(*old(self), *artifacts, draft) is None
                &&& final(self).next_id == old(self).next_id + 1
                &&& id == "cpum"@ + decimal(final(self).next_id as nat)
                &&& final(self).records@ == old(self).records@.insert(id, stored)
                &&& record_same(published, stored)
                &&& stored.cpu_artifact == draft.cpu_artifact && stored.cpu_artifact_hash == draft.cpu_artifact_hash
                &&& stored.compiler_build_hash == draft.compiler_build_hash && stored.runtime_version == draft.runtime_version
                &&& stored.config == draft.config && stored.inputs == draft.inputs && stored.host == draft.host
                &&& stored.raw_duration_ns == draft.raw_duration_ns && stored.aggregates == draft.aggregates
                &&& stored.outputs == draft.outputs
                &&& record_provenance_valid(stored, artifacts.packages@[draft.cpu_artifact@])
                &&& exists|enc: MeasurementEncodings| #[trigger] encode.ensures((&stored,), enc) && record_hashes_valid(stored, enc)
                &&& final(self).events@.len() == old(self).events@.len() + 1
            }),
    {
        let package = match artifacts.packages.get(draft.cpu_artifact.as_str()) {
            Some(p) => p,
            None => {
                return Err(AgentError::new(ErrorCode::CpuArtifactNotFound, "CPU artifact does not exist"));
            },
        };
        if !str_eq(package.cpu_artifact_hash.0.as_str(), draft.cpu_artifact_hash.0.as_str()) || !str_eq(
            package.compiler_build_hash.0.as_str(),
            draft.compiler_build_hash.0.as_str(),
        ) {
            return Err(AgentError::new(ErrorCode::CpuArtifactHashMismatch, "CPU measurement draft does not match the retained artifact"));
        }
        if self.records.len() > 0 {
            let (_, first) = self.records.entry_at(0);
            if first.host.clock_source != draft.host.clock_source {
                return Err(
                    AgentError::new(
                        ErrorCode::CpuMeasurementConfigInvalid,
                        "production and synthetic fixture measurements cannot share one store",
                    ),
                );
            }
        }
        let next_id = match self.next_id.checked_add(1) {
            Some(n) => n,
            None => {
                return Err(AgentError::new(ErrorCode::CpuMeasurementOverflow, "CPU measurement ID allocator overflow"));
            },
        };
        let id = prefixed_decimal("cpum", next_id);
        let mut record = CpuMeasurementRecord {
            id,
            format: String::from_str("agentir.cpu.measurement"),
            format_version: CPU_MEASUREMENT_FORMAT_VERSION,
            cpu_artifact: draft.cpu_artifact,
            cpu_artifact_hash: draft.cpu_artifact_hash,
            compiler_build_hash: draft.compiler_build_hash,
            runtime_version: draft.runtime_version,
            config: draft.config,
            cpu_benchmark_config_hash: CpuBenchmarkConfigHash(String::from_str("pending")),
            inputs: draft.inputs,
            cpu_input_hash: CpuInputHash(String::from_str("pending")),
            host: draft.host,
            cpu_host_fingerprint_hash: CpuHostFingerprintHash(String::from_str("pending")),
            raw_duration_ns: draft.raw_duration_ns,
            aggregates: draft.aggregates,
            outputs: draft.outputs,
            output_hash: CpuOutputHash(String::from_str("pending")),
            cpu_measurement_hash: CpuMeasurementHash(String::from_str("pending")),
        };
        let ghost pending_record = record;
        let parts = encode(&record);
        record.cpu_benchmark_config_hash = cpu_benchmark_config_hash(parts.config.as_slice());
        record.cpu_input_hash = cpu_input_hash(parts.inputs.as_slice());
        record.cpu_host_fingerprint_hash = cpu_host_fingerprint_hash(parts.host.as_slice());
        record.output_hash = cpu_output_hash(parts.outputs.as_slice());
        let ghost partial_record = record;
        let whole = encode(&record);
        record.cpu_measurement_hash = cpu_measurement_hash(whole.record.as_slice());
        let encodings = encode(&record);
        proof {
            assert(same_but_hashes(pending_record, record));
            assert(same_but_hashes(partial_record, record));
        }
        verify_cpu_measurement(&record, package, &encodings, limits)?;
        let published = copy_record(&record);
        let event = VersionedCpuMeasurementEvent {
            semantics_version: CPU_MEASUREMENT_EVENT_SEMANTICS_VERSION,
            event: CpuMeasurementEvent { record: copy_record(&record), cpu_artifact_event_cursor: artifact_event_cursor },
        };
        self.next_id = next_id;
        self.records.insert(record.id.clone(), record);
        self.events.push(event);
        Ok(published)
    }
}

} // verus!
