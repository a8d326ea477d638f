//! Persistent BackendIR plans, artifact packages, hashes, and replayable records.

use crate::backend_ir::{
    ArtifactModule, ArtifactPackage, ArtifactStatus, BackendAnchor, BackendKernel, BackendCertificate, BackendEvidence, BackendObligation,
    BackendProgram, BackendStatus, HardwareMeasurementRecord, ARTIFACT_VALIDATOR_VERSION, BACKEND_SEMANTICS_VERSION,
    BACKEND_VALIDATOR_VERSION,
};
use crate::diagnostics::{AgentError, AgentResult, ErrorCode};
use crate::digest::{digest_text, domain_digest};
use crate::idmap::{kv_keys, IdMap};
use crate::ids::{
    ArtifactId, ArtifactModuleId, BackendKernelId, BackendPlanId, BackendRevisionId, BackendValueId, MeasurementId,
    ScheduleNodeId,
};
use crate::memory::sat_succ;
use crate::text::{decimal, decimal_u64, parse_u64_from, prefixed_decimal, push_decimal};
use vstd::prelude::*;
use vstd::utf8::encode_utf8;

verus! {

/// Backend event replay semantics version.
pub const BACKEND_EVENT_SEMANTICS_VERSION: u32 = 1;
/// Artifact event replay semantics version.
pub const ARTIFACT_EVENT_SEMANTICS_VERSION: u32 = 1;
/// Measurement event replay semantics version.
pub const MEASUREMENT_EVENT_SEMANTICS_VERSION: u32 = 1;

/// Exact identity of one typed BackendIR revision.
#[derive(Debug)]
pub struct BackendHash(pub String);

/// Identity of the deterministic compiler build contract.
#[derive(Debug)]
pub struct CompilerBuildHash(pub String);

/// Exact identity of a reproducible artifact package.
#[derive(Debug)]
pub struct ArtifactHash(pub String);

/// Identity of reported device and runtime capabilities.
#[derive(Debug)]
pub struct DeviceFingerprintHash(pub String);

/// Exact identity of one confidence-only measurement record.
#[derive(Debug)]
pub struct MeasurementHash(pub String);

/// Backend and artifact staged monotonic allocator.
#[derive(Clone, Debug, PartialEq, Eq)]
pub struct BackendAllocator {
    counters: [u64; 7],
}

/// The identifier prefix of counter `kind` (plan, revision, kernel, value,
/// artifact, module, measurement).
pub open spec fn backend_id_prefix(kind: int) -> Seq<char> {
    if kind == 0 { "bp"@ }
    else if kind == 1 { "br"@ }
    else if kind == 2 { "bk"@ }
    else if kind == 3 { "bv"@ }
    else if kind == 4 { "art"@ }
    else if kind == 5 { "wm"@ }
    else { "meas"@ }
}

impl BackendAllocator {
    /// The counter of identifier kind `kind`.
    pub closed spec fn counter(self, kind: int) -> u64 {
        self.counters@[kind]
    }

    /// Creates an allocator with every counter at zero.
    pub fn new() -> (r: Self)
        ensures
            forall|k: int| 0 <= k < 7 ==> r.counter(k) == 0,
    {
        BackendAllocator { counters: [0, 0, 0, 0, 0, 0, 0] }
    }

    /// Returns the counter of identifier kind `kind`.
    pub fn current(&self, kind: usize) -> (r: u64)
        requires
            kind < 7,
        ensures
            r == self.counter(kind as int),
    {
        self.counters[kind]
    }

    fn next(&mut self, kind: usize, prefix: &str) -> (r: String)
        requires
            kind < 7,
        ensures
            final(self).counter(kind as int) == sat_succ(old(self).counter(kind as int)),
            forall|k: int| 0 <= k < 7 && k != kind ==> final(self).counter(k) == old(self).counter(k),
            r@ == prefix@ + decimal(final(self).counter(kind as int) as nat),
    {
        let value = self.counters[kind].saturating_add(1);
        self.counters.set(kind, value);
        prefixed_decimal(prefix, value)
    }

    /// Allocates a backend plan identity: `bp` and the saturated incremented counter.
    pub fn plan(&mut self) -> (r: BackendPlanId)
        ensures
            final(self).counter(0) == sat_succ(old(self).counter(0)),
            forall|k: int| 0 <= k < 7 && k != 0 ==> final(self).counter(k) == old(self).counter(k),
            r@ == backend_id_prefix(0) + decimal(final(self).counter(0) as nat),
    {
        self.next(0, "bp")
    }

    /// Allocates a backend revision identity: `br` and the saturated incremented counter.
    pub fn revision(&mut self) -> (r: BackendRevisionId)
        ensures
            final(self).counter(1) == sat_succ(old(self).counter(1)),
            forall|k: int| 0 <= k < 7 && k != 1 ==> final(self).counter(k) == old(self).counter(k),
            r@ == backend_id_prefix(1) + decimal(final(self).counter(1) as nat),
    {
        self.next(1, "br")
    }

    /// Allocates a kernel identity: `bk` and the saturated incremented counter.
    pub fn kernel(&mut self) -> (r: BackendKernelId)
        ensures
            final(self).counter(2) == sat_succ(old(self).counter(2)),
            forall|k: int| 0 <= k < 7 && k != 2 ==> final(self).counter(k) == old(self).counter(k),
            r@ == backend_id_prefix(2) + decimal(final(self).counter(2) as nat),
    {
        self.next(2, "bk")
    }

    /// Allocates a backend SSA value identity: `bv` and the saturated incremented counter.
    pub fn value(&mut self) -> (r: BackendValueId)
        ensures
            final(self).counter(3) == sat_succ(old(self).counter(3)),
            forall|k: int| 0 <= k < 7 && k != 3 ==> final(self).counter(k) == old(self).counter(k),
            r@ == backend_id_prefix(3) + decimal(final(self).counter(3) as nat),
    {
        self.next(3, "bv")
    }

    /// Allocates an artifact identity: `art` and the saturated incremented counter.
    pub fn artifact(&mut self) -> (r: ArtifactId)
        ensures
            final(self).counter(4) == sat_succ(old(self).counter(4)),
            forall|k: int| 0 <= k < 7 && k != 4 ==> final(self).counter(k) == old(self).counter(k),
            r@ == backend_id_prefix(4) + decimal(final(self).counter(4) as nat),
    {
        self.next(4, "art")
    }

    /// Allocates an artifact module identity: `wm` and the saturated incremented counter.
    pub fn module(&mut self) -> (r: ArtifactModuleId)
        ensures
            final(self).counter(5) == sat_succ(old(self).counter(5)),
            forall|k: int| 0 <= k < 7 && k != 5 ==> final(self).counter(k) == old(self).counter(k),
            r@ == backend_id_prefix(5) + decimal(final(self).counter(5) as nat),
    {
        self.next(5, "wm")
    }

    /// Allocates a measurement identity: `meas` and the saturated incremented counter.
    pub fn measurement(&mut self) -> (r: MeasurementId)
        ensures
            final(self).counter(6) == sat_succ(old(self).counter(6)),
            forall|k: int| 0 <= k < 7 && k != 6 ==> final(self).counter(k) == old(self).counter(k),
            r@ == backend_id_prefix(6) + decimal(final(self).counter(6) as nat),
    {
        self.next(6, "meas")
    }
}

impl Default for BackendAllocator {
    fn default() -> (r: Self)
        ensures
            forall|k: int| 0 <= k < 7 ==> r.counter(k) == 0,
    {
        BackendAllocator::new()
    }
}

/// The text hashed into the compiler build identity.
pub open spec fn build_model() -> Seq<char> {
    "agentir:0.1.0:backend="@ + decimal(BACKEND_SEMANTICS_VERSION as nat) + ":validator="@
        + decimal(BACKEND_VALIDATOR_VERSION as nat) + ":artifact="@ + decimal(ARTIFACT_VALIDATOR_VERSION as nat)
}

/// The compiler build identity.
pub open spec fn spec_compiler_build_hash() -> Seq<char> {
    domain_digest(encode_utf8("agentir.compiler.build.v1\0"@), encode_utf8(build_model()))
}

/// Current deterministic compiler build identity.
pub fn compiler_build_hash() -> (r: CompilerBuildHash)
    ensures
        r.0@ == spec_compiler_build_hash(),
        r.0@.len() == 64,
{
    let mut model = String::from_str("agentir:0.1.0:backend=");
    push_decimal(&mut model, BACKEND_SEMANTICS_VERSION as u64);
    model.append(":validator=");
    push_decimal(&mut model, BACKEND_VALIDATOR_VERSION as u64);
    model.append(":artifact=");
    push_decimal(&mut model, ARTIFACT_VALIDATOR_VERSION as u64);
    assert(model@ =~= build_model());
    CompilerBuildHash(digest_text("agentir.compiler.build.v1\0".as_bytes(), model.as_str().as_bytes()))
}

/// One immutable BackendIR revision.
#[derive(Debug)]
pub struct BackendRevision {
    /// Revision identity.
    pub id: BackendRevisionId,
    /// Immutable parents.
    pub parents: Vec<BackendRevisionId>,
    /// Separate typed backend graph.
    pub program: BackendProgram,
    /// Exact BackendIR hash.
    pub backend_hash: BackendHash,
    /// Lifecycle state.
    pub status: BackendStatus,
    /// Compiler-owned equivalence certificate.
    pub certificate: BackendCertificate,
    /// Confidence-only evidence.
    pub evidence: Vec<BackendEvidence>,
    /// Remaining correctness obligations.
    pub obligations: Vec<BackendObligation>,
}

/// Immutable backend plan revision DAG.
#[derive(Debug)]
pub struct BackendPlan {
    /// Plan identity.
    pub id: BackendPlanId,
    /// Immutable Stage 1-4 anchor.
    pub anchor: BackendAnchor,
    /// Current branch head.
    pub head: BackendRevisionId,
    /// Immutable revisions.
    pub revisions: IdMap<BackendRevision>,
}

/// Summary returned by backend queries and checks.
#[derive(Debug)]
pub struct BackendQuery {
    /// Plan identity.
    pub backend_plan: BackendPlanId,
    /// Revision identity.
    pub backend_revision: BackendRevisionId,
    /// Exact backend hash.
    pub backend_hash: BackendHash,
    /// Immutable schedule hash.
    pub schedule_hash: crate::schedule::ScheduleHash,
    /// Immutable target hash.
    pub target_hash: crate::target::TargetHash,
    /// Lifecycle state.
    pub status: BackendStatus,
    /// Number of kernels.
    pub kernel_count: usize,
    /// Number of ordered dispatches.
    pub dispatch_count: usize,
    /// Total storage bindings across kernels.
    pub binding_count: usize,
    /// Ordered distinct vector widths retained by kernels.
    pub vector_widths: Vec<u32>,
    /// Ordered distinct bounded unroll factors retained by kernels.
    pub unroll_factors: Vec<u32>,
    /// Whether a lazy exact guard path exists.
    pub guarded: bool,
    /// Open obligation count.
    pub open_obligations: usize,
}

/// Full BackendIR structural verification report.
#[derive(Debug)]
pub struct BackendCheckReport {
    /// Read-only query summary.
    pub query: BackendQuery,
    /// Whether the graph is structurally well typed.
    pub well_typed: bool,
    /// Whether compiler-owned proof establishes BackendEquivalentToSchedule.
    pub equivalent_to_schedule: bool,
    /// Whether the revision may emit an artifact.
    pub emittable: bool,
}

/// Bounded deterministic lowering continuation.
#[derive(Debug)]
pub struct BackendContinuation {
    /// Selected schedule hash.
    pub schedule_hash: crate::schedule::ScheduleHash,
    /// Supported backend kind.
    pub backend_kind: crate::backend_ir::BackendKind,
    /// Conservative serial lowering is supported for the elementwise subset.
    pub serial_available: bool,
    /// Supported vector widths.
    pub vector_widths: Vec<u32>,
    /// Unsupported constructs found by structural preflight.
    pub unsupported: Vec<String>,
}

/// Replayable BackendIR event.
#[derive(Debug)]
pub enum BackendEvent {
    /// A complete compiler-lowered plan was atomically published.
    Lowered {
        /// Exact published plan.
        plan: BackendPlan,
        /// Candidate event dependency cursor.
        candidate_event_cursor: u64,
        /// Equality event dependency cursor.
        equality_event_cursor: u64,
        /// Memory event dependency cursor.
        memory_event_cursor: u64,
        /// Target event dependency cursor.
        target_event_cursor: u64,
        /// Schedule event dependency cursor.
        schedule_event_cursor: u64,
    },
    /// An immutable backend revision was copied into an independent plan.
    Forked {
        /// Parent plan identity.
        source_plan: BackendPlanId,
        /// Parent immutable revision.
        source_revision: BackendRevisionId,
        /// Exact expected parent hash.
        expected_backend_hash: BackendHash,
        /// Complete compiler-owned forked plan.
        plan: BackendPlan,
    },
    /// A proved backend revision was sealed immutably.
    Sealed {
        /// Plan identity.
        backend_plan: BackendPlanId,
        /// Parent revision.
        base_revision: BackendRevisionId,
        /// Exact expected parent hash.
        expected_backend_hash: BackendHash,
        /// Published sealed revision.
        revision: BackendRevision,
    },
}

/// Backend event with independent replay semantics.
#[derive(Debug)]
pub struct VersionedBackendEvent {
    /// Backend event semantics version.
    pub semantics_version: u32,
    /// Replayable event.
    pub event: BackendEvent,
}

/// Persistent BackendIR plans and replay state.
#[derive(Debug)]
pub struct BackendStore {
    /// Backend plans keyed by compiler identity.
    pub plans: IdMap<BackendPlan>,
    /// Shared backend/artifact allocator.
    pub allocator: BackendAllocator,
    /// Ordered backend event log.
    pub events: Vec<VersionedBackendEvent>,
}

/// Artifact package summary.
#[derive(Debug)]
pub struct ArtifactQuery {
    /// Artifact identity.
    pub artifact: ArtifactId,
    /// Exact package hash.
    pub artifact_hash: ArtifactHash,
    /// Source backend hash.
    pub backend_hash: BackendHash,
    /// Compiler build identity.
    pub compiler_build_hash: CompilerBuildHash,
    /// Lifecycle state.
    pub status: ArtifactStatus,
    /// Number of modules.
    pub module_count: usize,
    /// Number of entry points.
    pub entry_point_count: usize,
    /// Exact total WGSL bytes.
    pub wgsl_bytes: usize,
}

/// Artifact structural validation report.
#[derive(Debug)]
pub struct ArtifactCheckReport {
    /// Read-only summary.
    pub query: ArtifactQuery,
    /// Whether offline WGSL validation succeeded.
    pub offline_valid: bool,
    /// Whether compiler-owned proof establishes ArtifactEquivalentToBackend.
    pub equivalent_to_backend: bool,
}

/// Replayable artifact event.
#[derive(Debug)]
pub struct ArtifactEvent {
    /// Source backend plan.
    pub backend_plan: BackendPlanId,
    /// Source backend revision.
    pub backend_revision: BackendRevisionId,
    /// Exact emitted package.
    pub package: ArtifactPackage,
    /// Backend event dependency cursor.
    pub backend_event_cursor: u64,
}

/// Artifact event with independent replay semantics.
#[derive(Debug)]
pub struct VersionedArtifactEvent {
    /// Artifact event semantics version.
    pub semantics_version: u32,
    /// Replayable event.
    pub event: ArtifactEvent,
}

/// Persistent deterministic artifact packages.
#[derive(Debug)]
pub struct ArtifactStore {
    /// Packages by compiler identity.
    pub packages: IdMap<ArtifactPackage>,
    /// Ordered artifact event log.
    pub events: Vec<VersionedArtifactEvent>,
}

/// Replayable completed measurement event.
#[derive(Debug)]
pub struct MeasurementEvent {
    /// Compiler-assigned measurement identity.
    pub measurement: MeasurementId,
    /// Exact completed record.
    pub record: HardwareMeasurementRecord,
    /// Artifact dependency cursor.
    pub artifact_event_cursor: u64,
}

/// Measurement event with independent replay semantics.
#[derive(Debug)]
pub struct VersionedMeasurementEvent {
    /// Measurement event semantics version.
    pub semantics_version: u32,
    /// Replayable event.
    pub event: MeasurementEvent,
}

/// Persistent confidence-only hardware measurement records.
#[derive(Debug)]
pub struct MeasurementStore {
    /// Completed records by compiler identity.
    pub records: IdMap<HardwareMeasurementRecord>,
    /// Ordered measurement event log.
    pub events: Vec<VersionedMeasurementEvent>,
}

/// The WGSL byte count of the first `n` modules.
pub open spec fn wgsl_total(ms: Seq<crate::backend_ir::ArtifactModule>, n: nat) -> int
    decreases n,
{
    if n == 0 {
        0
    } else {
        wgsl_total(ms, (n - 1) as nat) + encode_utf8(ms[n - 1].wgsl@).len()
    }
}

/// The summary of an artifact package.
pub open spec fn artifact_query_matches(q: ArtifactQuery, p: ArtifactPackage) -> bool {
    &&& q.artifact@ == p.id@
    &&& q.artifact_hash.0@ == p.artifact_hash.0@
    &&& q.backend_hash.0@ == p.manifest.backend_hash.0@
    &&& q.compiler_build_hash.0@ == p.manifest.compiler_build_hash.0@
    &&& q.status == p.status
    &&& q.module_count == p.modules@.len()
    &&& q.entry_point_count == p.manifest.entry_points@.len()
    &&& q.wgsl_bytes == wgsl_total(p.modules@, p.modules@.len())
}

/// Whether the WGSL byte count of a package fits in `usize`.
pub open spec fn wgsl_fits(p: ArtifactPackage) -> bool {
    wgsl_total(p.modules@, p.modules@.len()) <= usize::MAX
}

proof fn lemma_wgsl_total_monotone(ms: Seq<crate::backend_ir::ArtifactModule>, a: nat, b: nat)
    requires
        a <= b,
    ensures
        wgsl_total(ms, a) <= wgsl_total(ms, b),
    decreases b - a,
{
    if a < b {
        lemma_wgsl_total_monotone(ms, a, (b - 1) as nat);
    }
}

pub(crate) fn artifact_query(package: &ArtifactPackage) -> (r: ArtifactQuery)
    requires
        wgsl_fits(*package),
    ensures
        artifact_query_matches(r, *package),
{
    let mut total: usize = 0;
    let mut i: usize = 0;
    while i < package.modules.len()
        invariant
            i <= package.modules@.len(),
            total == wgsl_total(package.modules@, i as nat),
            wgsl_fits(*package),
        decreases package.modules.len() - i,
    {
        proof {
            lemma_wgsl_total_monotone(package.modules@, (i + 1) as nat, package.modules@.len());
        }
        total = total + package.modules[i].wgsl.as_str().len();
        i = i + 1;
    }
    ArtifactQuery {
        artifact: package.id.clone(),
        artifact_hash: ArtifactHash(package.artifact_hash.0.clone()),
        backend_hash: BackendHash(package.manifest.backend_hash.0.clone()),
        compiler_build_hash: CompilerBuildHash(package.manifest.compiler_build_hash.0.clone()),
        status: package.status,
        module_count: package.modules.len(),
        entry_point_count: package.manifest.entry_points.len(),
        wgsl_bytes: total,
    }
}

impl ArtifactStore {
    /// Creates an empty store.
    pub fn new() -> (r: Self)
        ensures
            r.packages@ == Map::<Seq<char>, ArtifactPackage>::empty(),
            r.events@.len() == 0,
    {
        ArtifactStore { packages: IdMap::new(), events: Vec::new() }
    }

    /// Returns artifact summaries in deterministic identity order.
    pub fn list(&self) -> (r: Vec<ArtifactQuery>)
        requires
            forall|i: int| 0 <= i < self.packages.kv().len() ==> wgsl_fits(#[trigger] self.packages.kv()[i].1),
        ensures
            r@.len() == self.packages.kv().len(),
            forall|i: int| 0 <= i < r@.len() ==> artifact_query_matches(#[trigger] r@[i], self.packages.kv()[i].1),
    {
        let n = self.packages.len();
        let mut out: Vec<ArtifactQuery> = Vec::new();
        let mut i: usize = 0;
        while i < n
            invariant
                n == self.packages.kv().len(),
                i <= n,
                out@.len() == i,
                forall|j: int| 0 <= j < n ==> wgsl_fits(#[trigger] self.packages.kv()[j].1),
                forall|j: int| 0 <= j < i ==> artifact_query_matches(#[trigger] out@[j], self.packages.kv()[j].1),
            decreases n - i,
        {
            let (_, package) = self.packages.entry_at(i);
            out.push(artifact_query(package));
            i = i + 1;
        }
        out
    }

    /// Returns one artifact package.
    pub fn package(&self, artifact: &str) -> (r: AgentResult<&ArtifactPackage>)
        ensures
            match r {
                Ok(p) => self.packages@.contains_key(artifact@) && *p == self.packages@[artifact@],
                Err(e) => !self.packages@.contains_key(artifact@) && e.code == ErrorCode::ArtifactNotFound,
            },
    {
        match self.packages.get(artifact) {
            Some(p) => Ok(p),
            None => Err(AgentError::new(ErrorCode::ArtifactNotFound, "artifact does not exist")),
        }
    }

    /// Reads one artifact summary.
    pub fn query(&self, artifact: &str) -> (r: AgentResult<ArtifactQuery>)
        requires
            self.packages@.contains_key(artifact@) ==> wgsl_fits(self.packages@[artifact@]),
        ensures
            match r {
                Ok(q) => self.packages@.contains_key(artifact@) && artifact_query_matches(q, self.packages@[artifact@]),
                Err(e) => !self.packages@.contains_key(artifact@) && e.code == ErrorCode::ArtifactNotFound,
            },
    {
        let package = self.package(artifact)?;
        Ok(artifact_query(package))
    }
}

impl BackendStore {
    /// Returns one backend plan.
    pub fn plan(&self, plan: &str) -> (r: AgentResult<&BackendPlan>)
        ensures
            match r {
                Ok(p) => self.plans@.contains_key(plan@) && *p == self.plans@[plan@],
                Err(e) => !self.plans@.contains_key(plan@) && e.code == ErrorCode::BackendPlanNotFound,
            },
    {
        match self.plans.get(plan) {
            Some(p) => Ok(p),
            None => Err(AgentError::new(ErrorCode::BackendPlanNotFound, "backend plan does not exist")),
        }
    }
}

/// The number after `prefix` in a persistent identity, as `u64::from_str` reads it.
pub open spec fn id_suffix(id: Seq<char>, prefix: Seq<char>) -> Option<u64> {
    if prefix.is_prefix_of(id) {
        decimal_u64(id.skip(prefix.len() as int))
    } else {
        None
    }
}

/// The larger of two numbers, or nothing when either is missing.
pub open spec fn join_max(a: Option<u64>, b: Option<u64>) -> Option<u64> {
    match (a, b) {
        (Some(x), Some(y)) => Some(if x >= y { x } else { y }),
        _ => None,
    }
}

/// The largest identity number (zero for none), or nothing when some
/// identity does not have the prefix and a number.
pub open spec fn max_suffix(ids: Seq<Seq<char>>, prefix: Seq<char>) -> Option<u64>
    decreases ids.len(),
{
    if ids.len() == 0 {
        Some(0)
    } else {
        join_max(max_suffix(ids.drop_last(), prefix), id_suffix(ids.last(), prefix))
    }
}

/// `max_suffix` over the revision identities of every plan.
pub open spec fn revision_max(plans: Seq<(Seq<char>, BackendPlan)>) -> Option<u64>
    decreases plans.len(),
{
    if plans.len() == 0 {
        Some(0)
    } else {
        join_max(revision_max(plans.drop_last()), max_suffix(kv_keys(plans.last().1.revisions.kv()), "br"@))
    }
}

/// `max_suffix` over the kernel identities of the revisions.
pub open spec fn kernel_max_in(revs: Seq<(Seq<char>, BackendRevision)>) -> Option<u64>
    decreases revs.len(),
{
    if revs.len() == 0 {
        Some(0)
    } else {
        join_max(kernel_max_in(revs.drop_last()), max_suffix(kv_keys(revs.last().1.program.kernels.kv()), "bk"@))
    }
}

/// `max_suffix` over the kernel identities of every plan.
pub open spec fn kernel_max(plans: Seq<(Seq<char>, BackendPlan)>) -> Option<u64>
    decreases plans.len(),
{
    if plans.len() == 0 {
        Some(0)
    } else {
        join_max(kernel_max(plans.drop_last()), kernel_max_in(plans.last().1.revisions.kv()))
    }
}

/// `max_suffix` over the value identities of the kernels.
pub open spec fn value_max_kernels(ks: Seq<(Seq<char>, BackendKernel)>) -> Option<u64>
    decreases ks.len(),
{
    if ks.len() == 0 {
        Some(0)
    } else {
        join_max(value_max_kernels(ks.drop_last()), max_suffix(kv_keys(ks.last().1.values.kv()), "bv"@))
    }
}

/// `max_suffix` over the value identities of the revisions.
pub open spec fn value_max_in(revs: Seq<(Seq<char>, BackendRevision)>) -> Option<u64>
    decreases revs.len(),
{
    if revs.len() == 0 {
        Some(0)
    } else {
        join_max(value_max_in(revs.drop_last()), value_max_kernels(revs.last().1.program.kernels.kv()))
    }
}

/// `max_suffix` over the value identities of every plan.
pub open spec fn value_max(plans: Seq<(Seq<char>, BackendPlan)>) -> Option<u64>
    decreases plans.len(),
{
    if plans.len() == 0 {
        Some(0)
    } else {
        join_max(value_max(plans.drop_last()), value_max_in(plans.last().1.revisions.kv()))
    }
}

/// `max_suffix` over the module identities of every package.
pub open spec fn module_max(pkgs: Seq<(Seq<char>, ArtifactPackage)>) -> Option<u64>
    decreases pkgs.len(),
{
    if pkgs.len() == 0 {
        Some(0)
    } else {
        join_max(module_max(pkgs.drop_last()), max_suffix(pkgs.last().1.modules@.map_values(|m: ArtifactModule| m.id@), "wm"@))
    }
}

/// The allocator state that resumes right after every retained identity:
/// plans, revisions, kernels, values, artifacts, modules, measurements.
pub open spec fn expected_allocator(store: BackendStore, artifacts: ArtifactStore, measurements: MeasurementStore) -> Seq<Option<u64>> {
    seq![
        max_suffix(kv_keys(store.plans.kv()), "bp"@),
        revision_max(store.plans.kv()),
        kernel_max(store.plans.kv()),
        value_max(store.plans.kv()),
        max_suffix(kv_keys(artifacts.packages.kv()), "art"@),
        module_max(artifacts.packages.kv()),
        max_suffix(kv_keys(measurements.records.kv()), "meas"@),
    ]
}

fn join(a: Option<u64>, b: Option<u64>) -> (r: Option<u64>)
    ensures
        r == join_max(a, b),
{
    match (a, b) {
        (Some(x), Some(y)) => Some(if x >= y { x } else { y }),
        _ => None,
    }
}

fn starts_with(text: &str, prefix: &str) -> (r: bool)
    ensures
        r == prefix@.is_prefix_of(text@),
{
    let n = prefix.unicode_len();
    if n > text.unicode_len() {
        return false;
    }
    let mut i: usize = 0;
    while i < n
        invariant
            n == prefix@.len(),
            n <= text@.len(),
            i <= n,
            forall|j: int| 0 <= j < i ==> prefix@[j] == text@[j],
        decreases n - i,
    {
        if prefix.get_char(i) != text.get_char(i) {
            proof {
                assert(prefix@[i as int] != text@.subrange(0, n as int)[i as int]);
            }
            return false;
        }
        i = i + 1;
    }
    assert(prefix@ =~= text@.subrange(0, n as int));
    true
}

fn suffix_of(id: &str, prefix: &str) -> (r: Option<u64>)
    ensures
        r == id_suffix(id@, prefix@),
{
    if starts_with(id, prefix) {
        parse_u64_from(id, prefix.unicode_len())
    } else {
        None
    }
}

fn keys_max<V>(m: &IdMap<V>, prefix: &str) -> (r: Option<u64>)
    ensures
        r == max_suffix(kv_keys(m.kv()), prefix@),
{
    let ghost kv = m.kv();
    let n = m.len();
    let mut acc: Option<u64> = Some(0);
    let mut i: usize = 0;
    while i < n
        invariant
            kv == m.kv(),
            n == kv.len(),
            i <= n,
            acc == max_suffix(kv_keys(kv.take(i as int)), prefix@),
        decreases n - i,
    {
        let (k, _) = m.entry_at(i);
        proof {
            assert(kv_keys(kv.take(i + 1)).drop_last() =~= kv_keys(kv.take(i as int)));
        }
        acc = join(acc, suffix_of(k.as_str(), prefix));
        i = i + 1;
    }
    proof {
        assert(kv.take(n as int) =~= kv);
    }
    acc
}

fn modules_max_of(ms: &Vec<ArtifactModule>) -> (r: Option<u64>)
    ensures
        r == max_suffix(ms@.map_values(|m: ArtifactModule| m.id@), "wm"@),
{
    let ghost ids = ms@.map_values(|m: ArtifactModule| m.id@);
    let mut acc: Option<u64> = Some(0);
    let mut i: usize = 0;
    while i < ms.len()
        invariant
            ids == ms@.map_values(|m: ArtifactModule| m.id@),
            i <= ms@.len(),
            acc == max_suffix(ids.take(i as int), "wm"@),
        decreases ms@.len() - i,
    {
        proof {
            assert(ids.take(i + 1).drop_last() =~= ids.take(i as int));
        }
        acc = join(acc, suffix_of(ms[i].id.as_str(), "wm"));
        i = i + 1;
    }
    proof {
        assert(ids.take(ms@.len() as int) =~= ids);
    }
    acc
}

fn revisions_max_of(plans: &IdMap<BackendPlan>) -> (r: Option<u64>)
    ensures
        r == revision_max(plans.kv()),
{
    let ghost kv = plans.kv();
    let n = plans.len();
    let mut acc: Option<u64> = Some(0);
    let mut i: usize = 0;
    while i < n
        invariant
            kv == plans.kv(),
            n == kv.len(),
            i <= n,
            acc == revision_max(kv.take(i as int)),
        decreases n - i,
    {
        let (_, plan) = plans.entry_at(i);
        proof {
            assert(kv.take(i + 1).drop_last() =~= kv.take(i as int));
        }
        acc = join(acc, keys_max(&plan.revisions, "br"));
        i = i + 1;
    }
    proof {
        assert(kv.take(n as int) =~= kv);
    }
    acc
}

fn kernels_max_in(revs: &IdMap<BackendRevision>) -> (r: Option<u64>)
    ensures
        r == kernel_max_in(revs.kv()),
{
    let ghost kv = revs.kv();
    let n = revs.len();
    let mut acc: Option<u64> = Some(0);
    let mut i: usize = 0;
    while i < n
        invariant
            kv == revs.kv(),
            n == kv.len(),
            i <= n,
            acc == kernel_max_in(kv.take(i as int)),
        decreases n - i,
    {
        let (_, rev) = revs.entry_at(i);
        proof {
            assert(kv.take(i + 1).drop_last() =~= kv.take(i as int));
        }
        acc = join(acc, keys_max(&rev.program.kernels, "bk"));
        i = i + 1;
    }
    proof {
        assert(kv.take(n as int) =~= kv);
    }
    acc
}

fn kernels_max_of(plans: &IdMap<BackendPlan>) -> (r: Option<u64>)
    ensures
        r == kernel_max(plans.kv()),
{
    let ghost kv = plans.kv();
    let n = plans.len();
    let mut acc: Option<u64> = Some(0);
    let mut i: usize = 0;
    while i < n
        invariant
            kv == plans.kv(),
            n == kv.len(),
            i <= n,
            acc == kernel_max(kv.take(i as int)),
        decreases n - i,
    {
        let (_, plan) = plans.entry_at(i);
        proof {
            assert(kv.take(i + 1).drop_last() =~= kv.take(i as int));
        }
        acc = join(acc, kernels_max_in(&plan.revisions));
        i = i + 1;
    }
    proof {
        assert(kv.take(n as int) =~= kv);
    }
    acc
}

fn values_max_kernels(ks: &IdMap<BackendKernel>) -> (r: Option<u64>)
    ensures
        r == value_max_kernels(ks.kv()),
{
    let ghost kv = ks.kv();
    let n = ks.len();
    let mut acc: Option<u64> = Some(0);
    let mut i: usize = 0;
    while i < n
        invariant
            kv == ks.kv(),
            n == kv.len(),
            i <= n,
            acc == value_max_kernels(kv.take(i as int)),
        decreases n - i,
    {
        let (_, k) = ks.entry_at(i);
        proof {
            assert(kv.take(i + 1).drop_last() =~= kv.take(i as int));
        }
        acc = join(acc, keys_max(&k.values, "bv"));
        i = i + 1;
    }
    proof {
        assert(kv.take(n as int) =~= kv);
    }
    acc
}

fn values_max_in(revs: &IdMap<BackendRevision>) -> (r: Option<u64>)
    ensures
        r == value_max_in(revs.kv()),
{
    let ghost kv = revs.kv();
    let n = revs.len();
    let mut acc: Option<u64> = Some(0);
    let mut i: usize = 0;
    while i < n
        invariant
            kv == revs.kv(),
            n == kv.len(),
            i <= n,
            acc == value_max_in(kv.take(i as int)),
        decreases n - i,
    {
        let (_, rev) = revs.entry_at(i);
        proof {
            assert(kv.take(i + 1).drop_last() =~= kv.take(i as int));
        }
        acc = join(acc, values_max_kernels(&rev.program.kernels));
        i = i + 1;
    }
    proof {
        assert(kv.take(n as int) =~= kv);
    }
    acc
}

fn values_max_of(plans: &IdMap<BackendPlan>) -> (r: Option<u64>)
    ensures
        r == value_max(plans.kv()),
{
    let ghost kv = plans.kv();
    let n = plans.len();
    let mut acc: Option<u64> = Some(0);
    let mut i: usize = 0;
    while i < n
        invariant
            kv == plans.kv(),
            n == kv.len(),
            i <= n,
            acc == value_max(kv.take(i as int)),
        decreases n - i,
    {
        let (_, plan) = plans.entry_at(i);
        proof {
            assert(kv.take(i + 1).drop_last() =~= kv.take(i as int));
        }
        acc = join(acc, values_max_in(&plan.revisions));
        i = i + 1;
    }
    proof {
        assert(kv.take(n as int) =~= kv);
    }
    acc
}

fn packages_modules_max(pkgs: &IdMap<ArtifactPackage>) -> (r: Option<u64>)
    ensures
        r == module_max(pkgs.kv()),
{
    let ghost kv = pkgs.kv();
    let n = pkgs.len();
    let mut acc: Option<u64> = Some(0);
    let mut i: usize = 0;
    while i < n
        invariant
            kv == pkgs.kv(),
            n == kv.len(),
            i <= n,
            acc == module_max(kv.take(i as int)),
        decreases n - i,
    {
        let (_, pkg) = pkgs.entry_at(i);
        proof {
            assert(kv.take(i + 1).drop_last() =~= kv.take(i as int));
        }
        acc = join(acc, modules_max_of(&pkg.modules));
        i = i + 1;
    }
    proof {
        assert(kv.take(n as int) =~= kv);
    }
    acc
}

impl BackendStore {
    /// Verifies that the shared backend, artifact and measurement allocator
    /// resumes exactly after every retained persistent identity.
    pub fn verify_allocator_state(&self, artifacts: &ArtifactStore, measurements: &MeasurementStore) -> (r: AgentResult<()>)
        ensures
            r is Ok <==> forall|k: int|
                0 <= k < 7 ==> #[trigger] expected_allocator(*self, *artifacts, *measurements)[k] == Some(self.allocator.counter(k)),
            r matches Err(e) ==> e.code == ErrorCode::BackendEventOrderInvalid,
    {
        let expected: [Option<u64>; 7] = [
            keys_max(&self.plans, "bp"),
            revisions_max_of(&self.plans),
            kernels_max_of(&self.plans),
            values_max_of(&self.plans),
            keys_max(&artifacts.packages, "art"),
            packages_modules_max(&artifacts.packages),
            keys_max(&measurements.records, "meas"),
        ];
        let ghost e = expected_allocator(*self, *artifacts, *measurements);
        let mut k: usize = 0;
        while k < 7
            invariant
                k <= 7,
                e == expected_allocator(*self, *artifacts, *measurements),
                forall|j: int| 0 <= j < 7 ==> expected@[j] == e[j],
                forall|j: int| 0 <= j < k ==> e[j] == Some(self.allocator.counter(j)),
            decreases 7 - k,
        {
            let matches = match expected[k] {
                Some(v) => v == self.allocator.current(k),
                None => false,
            };
            if !matches {
                return Err(AgentError::new(
                    ErrorCode::BackendEventOrderInvalid,
                    "backend allocator state does not resume after retained IDs",
                ));
            }
            k = k + 1;
        }
        Ok(())
    }
}

} // verus!
