//! Compiler-owned CPU measurement records and deterministic validation.

use crate::cpu::{CpuArtifactHash, CpuArtifactPackage, CpuCompilerBuildHash};
use crate::diagnostics::{AgentError, AgentResult, ErrorCode};
use crate::digest::{digest_text, domain_digest};
use crate::idmap::IdMap;
use crate::ids::{CpuArtifactId, CpuMeasurementId};
use crate::resources::{budget_against, ResourceLimits};
use crate::text::str_eq;
use vstd::prelude::*;
use vstd::string::StrSliceExecFns;
use vstd::utf8::encode_utf8;

verus! {

/// CPU benchmark configuration codec version.
pub const CPU_BENCHMARK_CONFIG_VERSION: u32 = 1;
/// CPU measurement record codec version.
pub const CPU_MEASUREMENT_FORMAT_VERSION: u32 = 1;
/// CPU measurement event replay semantics version.
pub const CPU_MEASUREMENT_EVENT_SEMANTICS_VERSION: u32 = 1;

/// Sole integer aggregation method.
#[derive(Clone, Copy, Debug, PartialEq, Eq, Structural)]
pub enum CpuAggregationMethod {
    /// Sort integer nanoseconds and compute exact min/median/nearest-rank-p95/max.
    OrderedIntegerNsV1,
}

/// Bounded client-selectable benchmark configuration canonicalized by the compiler.
#[derive(Clone, Copy, Debug, PartialEq, Eq, Structural)]
pub struct CpuBenchmarkConfig {
    /// Configuration codec version, always one.
    pub format_version: u32,
    /// Untimed executions before measurement.
    pub warmups: u32,
    /// Timed executions retained as ordered raw samples.
    pub iterations: u32,
    /// Deterministic aggregation method.
    pub aggregation: CpuAggregationMethod,
}

impl CpuBenchmarkConfig {
    /// Creates canonical v1 configuration from client-selectable bounded values.
    pub fn v1(warmups: u32, iterations: u32) -> (r: Self)
        ensures
            r == (CpuBenchmarkConfig {
                format_version: CPU_BENCHMARK_CONFIG_VERSION,
                warmups,
                iterations,
                aggregation: CpuAggregationMethod::OrderedIntegerNsV1,
            }),
    {
        CpuBenchmarkConfig {
            format_version: CPU_BENCHMARK_CONFIG_VERSION,
            warmups,
            iterations,
            aggregation: CpuAggregationMethod::OrderedIntegerNsV1,
        }
    }
}

/// Identifies whether the clock is the production monotonic source or an explicit test fixture.
#[derive(Clone, Copy, Debug, PartialEq, Eq, Structural)]
pub enum CpuClockSource {
    /// Process-local monotonic production clock.
    ProductionMonotonicV1,
    /// Deterministic synthetic clock accepted only by explicit test fixtures.
    SyntheticTestFixtureV1,
}

/// Runtime-owned host and environment descriptor without paths, process IDs, or timestamps.
#[derive(Debug)]
pub struct CpuHostDescriptor {
    /// Descriptor codec version.
    pub format_version: u32,
    /// Rust target operating system.
    pub operating_system: String,
    /// Rust target architecture.
    pub architecture: String,
    /// Rust target family.
    pub family: String,
    /// Runtime contract version.
    pub runtime_version: String,
    /// Explicit clock provenance.
    pub clock_source: CpuClockSource,
}

/// Deterministic aggregate statistics over ordered raw integer-nanosecond samples.
#[derive(Clone, Copy, Debug, PartialEq, Eq, Structural)]
pub struct CpuDurationAggregates {
    /// Smallest sample.
    pub min_ns: u64,
    /// Integer median (floor of the midpoint for an even sample count).
    pub median_ns: u64,
    /// Nearest-rank 95th percentile.
    pub p95_ns: u64,
    /// Largest sample.
    pub max_ns: u64,
}

/// Identity of one canonical bounded CPU benchmark configuration.
#[derive(Debug)]
pub struct CpuBenchmarkConfigHash(pub String);

/// Identity of canonical ordinary runtime inputs.
#[derive(Debug)]
pub struct CpuInputHash(pub String);

/// Identity of a runtime-owned CPU host descriptor.
#[derive(Debug)]
pub struct CpuHostFingerprintHash(pub String);

/// Identity of one complete CPU timing observation.
#[derive(Debug)]
pub struct CpuMeasurementHash(pub String);

/// Deterministic anchor for iteration outputs.
#[derive(Debug)]
pub struct CpuOutputHash(pub String);

/// Runtime-created data accepted by the compiler-owned atomic publisher.
#[derive(Debug)]
pub struct CpuMeasurementDraft {
    /// Measured compiler-published artifact.
    pub cpu_artifact: CpuArtifactId,
    /// Exact artifact identity observed before execution.
    pub cpu_artifact_hash: CpuArtifactHash,
    /// Exact compiler build identity retained by the package.
    pub compiler_build_hash: CpuCompilerBuildHash,
    /// Runtime contract version.
    pub runtime_version: String,
    /// Canonical bounded configuration.
    pub config: CpuBenchmarkConfig,
    /// Ordinary runtime inputs retained for independent hashing and replay verification.
    pub inputs: IdMap<serde_json::Value>,
    /// Runtime-owned host descriptor.
    pub host: CpuHostDescriptor,
    /// Ordered measured durations in integer nanoseconds.
    pub raw_duration_ns: Vec<u64>,
    /// Deterministic aggregates over the raw samples.
    pub aggregates: CpuDurationAggregates,
    /// Deterministic outputs agreed by all iterations.
    pub outputs: IdMap<serde_json::Value>,
}

/// Complete immutable non-correctness observation.
#[derive(Debug)]
pub struct CpuMeasurementRecord {
    /// Compiler-assigned store identity, excluded from measurement identity.
    pub id: CpuMeasurementId,
    /// Stable record discriminator.
    pub format: String,
    /// Record codec version.
    pub format_version: u32,
    /// Measured compiler-published artifact.
    pub cpu_artifact: CpuArtifactId,
    /// Exact artifact identity.
    pub cpu_artifact_hash: CpuArtifactHash,
    /// Exact CPU compiler build identity.
    pub compiler_build_hash: CpuCompilerBuildHash,
    /// Runtime contract version.
    pub runtime_version: String,
    /// Canonical benchmark configuration.
    pub config: CpuBenchmarkConfig,
    /// Independent configuration identity.
    pub cpu_benchmark_config_hash: CpuBenchmarkConfigHash,
    /// Canonical ordinary runtime inputs.
    pub inputs: IdMap<serde_json::Value>,
    /// Independent input identity.
    pub cpu_input_hash: CpuInputHash,
    /// Runtime-owned host descriptor.
    pub host: CpuHostDescriptor,
    /// Independent host descriptor identity.
    pub cpu_host_fingerprint_hash: CpuHostFingerprintHash,
    /// Ordered raw integer-nanosecond samples.
    pub raw_duration_ns: Vec<u64>,
    /// Deterministic aggregates.
    pub aggregates: CpuDurationAggregates,
    /// Deterministic outputs agreed by every execution.
    pub outputs: IdMap<serde_json::Value>,
    /// Independent deterministic output anchor.
    pub output_hash: CpuOutputHash,
    /// Complete measurement identity, excluding `id` and resource policy.
    pub cpu_measurement_hash: CpuMeasurementHash,
}

// ---------------------------------------------------------------------------
// Identities.

/// The hash of canonically encoded bytes under a NUL-terminated domain label.
pub open spec fn labeled_digest(label: Seq<char>, encoded: Seq<u8>) -> Seq<char> {
    domain_digest(encode_utf8(label), encoded)
}

/// Computes the configuration hash from the configuration's canonical encoding.
pub fn cpu_benchmark_config_hash(encoded: &[u8]) -> (r: CpuBenchmarkConfigHash)
    ensures
        r.0@ == labeled_digest("agentir.cpu.benchmark.config.v1\0"@, encoded@),
{
    CpuBenchmarkConfigHash(digest_text("agentir.cpu.benchmark.config.v1\0".as_bytes(), encoded))
}

/// Computes the input hash from the inputs' canonical encoding.
pub fn cpu_input_hash(encoded: &[u8]) -> (r: CpuInputHash)
    ensures
        r.0@ == labeled_digest("agentir.cpu.benchmark.input.v1\0"@, encoded@),
{
    CpuInputHash(digest_text("agentir.cpu.benchmark.input.v1\0".as_bytes(), encoded))
}

/// Computes the host fingerprint from the host descriptor's canonical encoding.
pub fn cpu_host_fingerprint_hash(encoded: &[u8]) -> (r: CpuHostFingerprintHash)
    ensures
        r.0@ == labeled_digest("agentir.cpu.host.fingerprint.v1\0"@, encoded@),
{
    CpuHostFingerprintHash(digest_text("agentir.cpu.host.fingerprint.v1\0".as_bytes(), encoded))
}

/// Computes the output anchor from the outputs' canonical encoding.
pub fn cpu_output_hash(encoded: &[u8]) -> (r: CpuOutputHash)
    ensures
        r.0@ == labeled_digest("agentir.cpu.measurement.output.v1\0"@, encoded@),
{
    CpuOutputHash(digest_text("agentir.cpu.measurement.output.v1\0".as_bytes(), encoded))
}

/// Computes the complete measurement hash from the canonical encoding of the
/// record without its store-local ID.
pub fn cpu_measurement_hash(encoded: &[u8]) -> (r: CpuMeasurementHash)
    ensures
        r.0@ == labeled_digest("agentir.cpu.measurement.v1\0"@, encoded@),
{
    CpuMeasurementHash(digest_text("agentir.cpu.measurement.v1\0".as_bytes(), encoded))
}

// ---------------------------------------------------------------------------
// Configuration and aggregation.

/// The outcome of validating a configuration: the total execution count.
pub open spec fn config_outcome(c: CpuBenchmarkConfig, l: ResourceLimits) -> Result<u64, ErrorCode> {
    if c.format_version != CPU_BENCHMARK_CONFIG_VERSION || c.iterations == 0 {
        Err(ErrorCode::CpuMeasurementConfigInvalid)
    } else if c.warmups > l.benchmark_warmups || c.iterations > l.benchmark_iterations {
        Err(ErrorCode::ResourceLimitExceeded)
    } else {
        Ok((c.warmups + c.iterations) as u64)
    }
}

/// Validates bounded configuration without adding resource policy to identity.
pub fn validate_cpu_benchmark_config(config: &CpuBenchmarkConfig, limits: &ResourceLimits) -> (r: AgentResult<u64>)
    ensures
        match config_outcome(*config, *limits) {
            Ok(n) => r == Ok::<u64, AgentError>(n),
            Err(c) => r matches Err(e) && e.code == c,
        },
{
    if config.format_version != CPU_BENCHMARK_CONFIG_VERSION || config.iterations == 0 {
        return Err(AgentError::new(ErrorCode::CpuMeasurementConfigInvalid, "CPU measurement requires config v1 and at least one measured iteration"));
    }
    budget_against(limits.benchmark_warmups, config.warmups as u64, "CPU measurement warmups")?;
    budget_against(limits.benchmark_iterations, config.iterations as u64, "CPU measurement iterations")?;
    Ok(config.warmups as u64 + config.iterations as u64)
}

/// Whether a sequence is nondecreasing.
pub open spec fn nondecreasing(s: Seq<u64>) -> bool {
    forall|i: int, j: int| 0 <= i <= j < s.len() ==> #[trigger] s[i] <= #[trigger] s[j]
}

/// The aggregates of a nondecreasing, non-empty sample sequence.
pub open spec fn aggregates_of(s: Seq<u64>) -> CpuDurationAggregates {
    let n = s.len() as int;
    let m = n / 2;
    CpuDurationAggregates {
        min_ns: s[0],
        median_ns: if n % 2 == 0 { ((s[m - 1] + s[m]) / 2) as u64 } else { s[m] },
        p95_ns: s[(95 * n + 99) / 100 - 1],
        max_ns: s[n - 1],
    }
}

/// Sorts samples by insertion, keeping exactly the same samples.
fn sorted_samples(samples: &[u64]) -> (r: Vec<u64>)
    ensures
        nondecreasing(r@),
        r@.to_multiset() == samples@.to_multiset(),
        r@.len() == samples@.len(),
{
    let mut out: Vec<u64> = Vec::new();
    let mut i: usize = 0;
    proof {
        broadcast use vstd::seq_lib::group_to_multiset_ensures;
        assert(samples@.take(0) =~= Seq::<u64>::empty());
        assert(out@ =~= Seq::<u64>::empty());
        assert(out@.to_multiset().len() == 0);
        assert(out@.to_multiset() =~= samples@.take(0).to_multiset());
    }
    while i < samples.len()
        invariant
            i <= samples@.len(),
            out@.len() == i,
            nondecreasing(out@),
            out@.to_multiset() == samples@.take(i as int).to_multiset(),
        decreases samples.len() - i,
    {
        let x = samples[i];
        let mut k: usize = 0;
        while k < out.len() && out[k] <= x
            invariant
                k <= out@.len(),
                forall|j: int| 0 <= j < k ==> #[trigger] out@[j] <= x,
            decreases out.len() - k,
        {
            k = k + 1;
        }
        let ghost o = out@;
        out.insert(k, x);
        proof {
            let n = out@;
            assert(n =~= o.insert(k as int, x));
            assert forall|a: int, b: int| 0 <= a <= b < n.len() implies #[trigger] n[a] <= #[trigger] n[b] by {
                if b < k {
                    assert(n[a] == o[a] && n[b] == o[b]);
                } else if b == k {
                    if a < k {
                        assert(n[a] == o[a]);
                    }
                } else if a == k {
                    assert(n[b] == o[b - 1]);
                    assert(o[k as int] > x);
                    assert(o[k as int] <= o[b - 1]);
                } else if a < k {
                    assert(n[a] == o[a] && n[b] == o[b - 1]);
                    assert(o[k as int] > x);
                    assert(o[k as int] <= o[b - 1]);
                } else {
                    assert(n[a] == o[a - 1] && n[b] == o[b - 1]);
                }
            }
            broadcast use vstd::seq_lib::group_to_multiset_ensures;
            assert(n.to_multiset() =~= o.to_multiset().insert(x));
            assert(samples@.take(i + 1) =~= samples@.take(i as int).push(x));
            assert(samples@.take(i + 1).to_multiset() =~= samples@.take(i as int).to_multiset().insert(x));
        }
        i = i + 1;
    }
    assert(samples@.take(samples@.len() as int) =~= samples@);
    out
}

/// Whether the aggregation of `samples` overflows the rank arithmetic.
pub open spec fn rank_overflows(n: nat) -> bool {
    95 * n + 99 > u64::MAX
}

/// Computes deterministic integer-nanosecond aggregates.
pub fn aggregate_cpu_durations(samples: &[u64]) -> (r: AgentResult<CpuDurationAggregates>)
    ensures
        samples@.len() == 0 ==> (r matches Err(e) && e.code == ErrorCode::CpuMeasurementConfigInvalid),
        samples@.len() > 0 && rank_overflows(samples@.len()) ==> (r matches Err(e) && e.code == ErrorCode::CpuMeasurementOverflow),
        samples@.len() > 0 && !rank_overflows(samples@.len()) ==> (r matches Ok(a) && exists|s: Seq<u64>|
            nondecreasing(s) && s.to_multiset() == samples@.to_multiset() && s.len() == samples@.len()
                && a == #[trigger] aggregates_of(s)),
{
    if samples.len() == 0 {
        return Err(AgentError::new(ErrorCode::CpuMeasurementConfigInvalid, "CPU measurement samples cannot be empty"));
    }
    let sorted = sorted_samples(samples);
    let n = sorted.len();
    let middle = n / 2;
    let median_ns = if n % 2 == 0 {
        let low = sorted[middle - 1];
        assert(sorted@[middle - 1] <= sorted@[middle as int]);
        low + (sorted[middle] - low) / 2
    } else {
        sorted[middle]
    };
    let count = n as u64;
    if count > (u64::MAX - 99) / 95 {
        return Err(AgentError::new(ErrorCode::CpuMeasurementOverflow, "CPU p95 rank overflow"));
    }
    let rank = (count * 95 + 99) / 100;
    let p95_index = (rank - 1) as usize;
    proof {
        assert(rank >= 1);
        assert(rank <= count) by {
            assert(count >= 1);
        }
    }
    let a = CpuDurationAggregates { min_ns: sorted[0], median_ns, p95_ns: sorted[p95_index], max_ns: sorted[n - 1] };
    proof {
        assert(a == aggregates_of(sorted@));
    }
    Ok(a)
}

// ---------------------------------------------------------------------------
// Record verification.

/// Whether a record's provenance fields match the measured package and its
/// own host and configuration.
pub open spec fn record_provenance_valid(r: CpuMeasurementRecord, p: CpuArtifactPackage) -> bool {
    &&& r.format@ == "agentir.cpu.measurement"@
    &&& r.format_version == CPU_MEASUREMENT_FORMAT_VERSION
    &&& r.cpu_artifact@ == p.id@
    &&& r.cpu_artifact_hash.0@ == p.cpu_artifact_hash.0@
    &&& r.compiler_build_hash.0@ == p.compiler_build_hash.0@
    &&& r.runtime_version@ == r.host.runtime_version@
    &&& r.runtime_version@.len() > 0
    &&& r.host.format_version == 1
    &&& r.host.operating_system@.len() > 0
    &&& r.host.architecture@.len() > 0
    &&& r.host.family@.len() > 0
    &&& r.config.format_version == CPU_BENCHMARK_CONFIG_VERSION
    &&& r.raw_duration_ns@.len() == r.config.iterations
}

/// The canonical encodings of the hash-covered parts of a record.
pub struct MeasurementEncodings {
    /// Encoded configuration.
    pub config: Vec<u8>,
    /// Encoded inputs.
    pub inputs: Vec<u8>,
    /// Encoded host descriptor.
    pub host: Vec<u8>,
    /// Encoded outputs.
    pub outputs: Vec<u8>,
    /// Encoded record without its store-local ID.
    pub record: Vec<u8>,
}

/// Whether every independent hash of the record matches its encoded data, and
/// its aggregates are those of its samples.
pub open spec fn record_hashes_valid(r: CpuMeasurementRecord, enc: MeasurementEncodings) -> bool {
    &&& r.cpu_benchmark_config_hash.0@ == labeled_digest("agentir.cpu.benchmark.config.v1\0"@, enc.config@)
    &&& r.cpu_input_hash.0@ == labeled_digest("agentir.cpu.benchmark.input.v1\0"@, enc.inputs@)
    &&& r.cpu_host_fingerprint_hash.0@ == labeled_digest("agentir.cpu.host.fingerprint.v1\0"@, enc.host@)
    &&& (exists|s: Seq<u64>| nondecreasing(s) && s.to_multiset() == r.raw_duration_ns@.to_multiset()
        && s.len() == r.raw_duration_ns@.len() && r.aggregates == #[trigger] aggregates_of(s))
    &&& r.output_hash.0@ == labeled_digest("agentir.cpu.measurement.output.v1\0"@, enc.outputs@)
    &&& r.cpu_measurement_hash.0@ == labeled_digest("agentir.cpu.measurement.v1\0"@, enc.record@)
}

proof fn lemma_sorted_unique_u64(a: Seq<u64>, b: Seq<u64>)
    requires
        nondecreasing(a),
        nondecreasing(b),
        a.to_multiset() == b.to_multiset(),
    ensures
        a == b,
    decreases a.len(),
{
    broadcast use vstd::seq_lib::group_to_multiset_ensures;
    if a.len() == 0 {
        if b.len() > 0 {
            assert(b.to_multiset().count(b[0]) > 0) by {
                assert(b.contains(b[0]));
            }
        }
        assert(a =~= b);
    } else {
        assert(a.contains(a[0]));
        assert(b.to_multiset().count(a[0]) > 0);
        assert(b.contains(a[0]));
        assert(b.len() > 0);
        assert(b.contains(b[0]));
        assert(a.to_multiset().count(b[0]) > 0);
        assert(a.contains(b[0]));
        let j = choose|j: int| 0 <= j < b.len() && b[j] == a[0];
        let i = choose|i: int| 0 <= i < a.len() && a[i] == b[0];
        assert(b[0] <= b[j]);
        assert(a[0] <= a[i]);
        assert(a[0] == b[0]);
        let a1 = a.drop_first();
        let b1 = b.drop_first();
        assert(a =~= seq![a[0]] + a1);
        assert(b =~= seq![b[0]] + b1);
        assert(a.remove(0) =~= a1);
        assert(b.remove(0) =~= b1);
        assert(a1.to_multiset() =~= a.to_multiset().remove(a[0]));
        assert(b1.to_multiset() =~= b.to_multiset().remove(b[0]));
        assert(nondecreasing(a1)) by {
            assert forall|x: int, y: int| 0 <= x <= y < a1.len() implies #[trigger] a1[x] <= #[trigger] a1[y] by {
                assert(a1[x] == a[x + 1] && a1[y] == a[y + 1]);
            }
        }
        assert(nondecreasing(b1)) by {
            assert forall|x: int, y: int| 0 <= x <= y < b1.len() implies #[trigger] b1[x] <= #[trigger] b1[y] by {
                assert(b1[x] == b[x + 1] && b1[y] == b[y + 1]);
            }
        }
        lemma_sorted_unique_u64(a1, b1);
    }
}

/// The aggregates depend only on the samples taken, not on the order in
/// which they were recorded: two orderings of the same samples sort to the
/// same sequence and so aggregate alike.
pub proof fn law_aggregates_ignore_sample_order(a: Seq<u64>, b: Seq<u64>, sa: Seq<u64>, sb: Seq<u64>)
    requires
        a.to_multiset() == b.to_multiset(),
        nondecreasing(sa),
        sa.to_multiset() == a.to_multiset(),
        nondecreasing(sb),
        sb.to_multiset() == b.to_multiset(),
    ensures
        aggregates_of(sa) == aggregates_of(sb),
{
    lemma_sorted_unique_u64(sa, sb);
}

/// Recomputes every structural and independent hash contract without
/// execution or clock access; `encodings` holds the canonical encodings of the
/// record's hash-covered parts, and `limits` the configuration bounds.
pub fn verify_cpu_measurement(
    record: &CpuMeasurementRecord,
    package: &CpuArtifactPackage,
    encodings: &MeasurementEncodings,
    limits: &ResourceLimits,
) -> (r: AgentResult<()>)
    ensures
        config_outcome(record.config, *limits) matches Err(c) ==> (r matches Err(e) && e.code == c),
        config_outcome(record.config, *limits) is Ok ==> (r is Ok <==> (record_provenance_valid(*record, *package)
            && record_hashes_valid(*record, *encodings))),
        config_outcome(record.config, *limits) is Ok && r is Err ==> (r matches Err(e) && e.code == ErrorCode::CpuMeasurementHashMismatch),
{
    validate_cpu_benchmark_config(&record.config, limits)?;
    if !str_eq(record.format.as_str(), "agentir.cpu.measurement") || record.format_version != CPU_MEASUREMENT_FORMAT_VERSION
        || !str_eq(record.cpu_artifact.as_str(), package.id.as_str())
        || !str_eq(record.cpu_artifact_hash.0.as_str(), package.cpu_artifact_hash.0.as_str())
        || !str_eq(record.compiler_build_hash.0.as_str(), package.compiler_build_hash.0.as_str())
        || !str_eq(record.runtime_version.as_str(), record.host.runtime_version.as_str())
        || record.runtime_version.unicode_len() == 0 || record.host.format_version != 1
        || record.host.operating_system.unicode_len() == 0 || record.host.architecture.unicode_len() == 0
        || record.host.family.unicode_len() == 0 || record.config.format_version != CPU_BENCHMARK_CONFIG_VERSION
        || record.raw_duration_ns.len() != record.config.iterations as usize {
        return Err(AgentError::new(ErrorCode::CpuMeasurementHashMismatch, "CPU measurement format, artifact provenance, runtime, or sample count is invalid"));
    }
    let aggregates = match aggregate_cpu_durations(record.raw_duration_ns.as_slice()) {
        Ok(a) => a,
        Err(_) => {
            return Err(AgentError::new(ErrorCode::CpuMeasurementHashMismatch, "CPU measurement aggregates cannot be recomputed"));
        },
    };
    let config_hash = cpu_benchmark_config_hash(encodings.config.as_slice());
    let input_hash = cpu_input_hash(encodings.inputs.as_slice());
    let host_hash = cpu_host_fingerprint_hash(encodings.host.as_slice());
    let output_hash = cpu_output_hash(encodings.outputs.as_slice());
    let measurement_hash = cpu_measurement_hash(encodings.record.as_slice());
    let same = str_eq(record.cpu_benchmark_config_hash.0.as_str(), config_hash.0.as_str())
        && str_eq(record.cpu_input_hash.0.as_str(), input_hash.0.as_str())
        && str_eq(record.cpu_host_fingerprint_hash.0.as_str(), host_hash.0.as_str())
        && record.aggregates == aggregates
        && str_eq(record.output_hash.0.as_str(), output_hash.0.as_str())
        && str_eq(record.cpu_measurement_hash.0.as_str(), measurement_hash.0.as_str());
    proof {
        let s = choose|s: Seq<u64>| nondecreasing(s) && s.to_multiset() == record.raw_duration_ns@.to_multiset()
            && s.len() == record.raw_duration_ns@.len() && aggregates == #[trigger] aggregates_of(s);
        assert forall|t: Seq<u64>| nondecreasing(t) && t.to_multiset() == record.raw_duration_ns@.to_multiset()
            && t.len() == record.raw_duration_ns@.len() implies #[trigger] aggregates_of(t) == aggregates by {
            lemma_sorted_unique_u64(s, t);
        }
    }
    if !same {
        return Err(AgentError::new(ErrorCode::CpuMeasurementHashMismatch, "CPU measurement hash-covered data is inconsistent"));
    }
    Ok(())
}

/// Replayable atomic measurement publication event.
#[derive(Debug)]
pub struct CpuMeasurementEvent {
    /// Exact published record.
    pub record: CpuMeasurementRecord,
    /// CPU artifact event dependency cursor.
    pub cpu_artifact_event_cursor: u64,
}

/// Measurement event paired with independent replay semantics.
#[derive(Debug)]
pub struct VersionedCpuMeasurementEvent {
    /// Event semantics version.
    pub semantics_version: u32,
    /// Replayable event.
    pub event: CpuMeasurementEvent,
}

/// Separate persistent measurement store.
#[derive(Debug)]
pub struct CpuMeasurementStore {
    /// Compiler-assigned next measurement sequence.
    pub next_id: u64,
    /// Immutable records by compiler-owned ID.
    pub records: IdMap<CpuMeasurementRecord>,
    /// Ordered publication events.
    pub events: Vec<VersionedCpuMeasurementEvent>,
}

impl CpuMeasurementStore {
    /// Creates an empty store.
    pub fn new() -> (r: Self)
        ensures
            r.next_id == 0,
            r.records@ == Map::<Seq<char>, CpuMeasurementRecord>::empty(),
            r.events@.len() == 0,
    {
        CpuMeasurementStore { next_id: 0, records: IdMap::new(), events: Vec::new() }
    }

    /// Reads one immutable record.
    pub fn query(&self, id: &str) -> (r: AgentResult<&CpuMeasurementRecord>)
        ensures
            match r {
                Ok(x) => self.records@.contains_key(id@) && *x == self.records@[id@],
                Err(e) => !self.records@.contains_key(id@) && e.code == ErrorCode::CpuMeasurementNotFound,
            },
    {
        match self.records.get(id) {
            Some(x) => Ok(x),
            None => Err(AgentError::new(ErrorCode::CpuMeasurementNotFound, "CPU measurement does not exist")),
        }
    }
}

} // verus!
