//! Memory-plan records: exact identities, allocators, guards and fallbacks.

use crate::candidate::CandidateHash;
use crate::diagnostics::{AgentError, AgentResult, ErrorCode};
use crate::idmap::IdMap;
use crate::ids::{
    AliasDomainId, BufferId, CandidateId, CandidateRevisionId, ImplValueId, MemoryEvidenceId, MemoryGuardId,
    MemoryObligationId, MemoryOperationId, MemoryPlanId, MemoryRevisionId, RevisionId,
};
use crate::impl_ir::ImplHash;
use crate::memory_ir::{
    alias_relation, fact_same, spec_alias_relation, AddressSpace, AliasFact, MemoryBuffer, MemoryLayout, MemoryOperation,
    MemoryProgram, ReuseDecision,
};
use crate::semantic::SpecHash;
use crate::text::{decimal, prefixed_decimal};
use crate::types::ScalarType;
use vstd::prelude::*;

verus! {

/// Exact identity of one memory plan revision, as lowercase hexadecimal SHA-256 text.
#[derive(Debug)]
pub struct MemoryHash(pub String);

impl MemoryHash {
    /// Creates a hash from lowercase hexadecimal text.
    pub fn new(value: String) -> (r: Self)
        ensures
            r.0@ == value@,
    {
        MemoryHash(value)
    }

    /// Returns the lowercase hexadecimal text.
    pub fn as_str(&self) -> (r: &str)
        ensures
            r@ == self.0@,
    {
        self.0.as_str()
    }
}


/// `x + 1`, saturated at `u64::MAX`.
pub open spec fn sat_succ(x: u64) -> u64 {
    if x == u64::MAX { u64::MAX } else { (x + 1) as u64 }
}

/// Memory-local monotonic allocator isolated from every other allocator.
#[derive(Clone, Debug, PartialEq, Eq)]
pub struct MemoryAllocator {
    counters: [u64; 8],
}

/// Position of each memory identifier kind among the allocator's counters.
pub open spec fn memory_id_prefix(kind: int) -> Seq<char> {
    if kind == 0 { "mp"@ }
    else if kind == 1 { "mr"@ }
    else if kind == 2 { "buf"@ }
    else if kind == 3 { "mop"@ }
    else if kind == 4 { "ad"@ }
    else if kind == 5 { "mo"@ }
    else if kind == 6 { "mev"@ }
    else { "mg"@ }
}

impl MemoryAllocator {
    /// The counter of identifier kind `kind` (plan, revision, buffer, operation,
    /// alias domain, obligation, evidence, guard).
    pub closed spec fn counter(self, kind: int) -> u64 {
        self.counters@[kind]
    }

    /// Creates an allocator with every counter at zero.
    pub fn new() -> (r: Self)
        ensures
            forall|k: int| 0 <= k < 8 ==> r.counter(k) == 0,
    {
        MemoryAllocator { counters: [0, 0, 0, 0, 0, 0, 0, 0] }
    }

    fn next(&mut self, kind: usize, prefix: &str) -> (r: String)
        requires
            kind < 8,
        ensures
            final(self).counter(kind as int) == sat_succ(old(self).counter(kind as int)),
            forall|k: int| 0 <= k < 8 && k != kind ==> final(self).counter(k) == old(self).counter(k),
            r@ == prefix@ + decimal(final(self).counter(kind as int) as nat),
    {
        let value = self.counters[kind].saturating_add(1);
        self.counters.set(kind, value);
        prefixed_decimal(prefix, value)
    }

    /// Copies the allocator's counters.
    pub fn copy(&self) -> (r: Self)
        ensures
            r == *self,
    {
        MemoryAllocator { counters: self.counters }
    }

    /// Allocates the next `MemoryPlanId`: `mp` and the saturated incremented counter.
    pub fn plan(&mut self) -> (r: MemoryPlanId)
        ensures
            final(self).counter(0) == sat_succ(old(self).counter(0)),
            forall|k: int| 0 <= k < 8 && k != 0 ==> final(self).counter(k) == old(self).counter(k),
            r@ == memory_id_prefix(0) + decimal(final(self).counter(0) as nat),
    {
        self.next(0, "mp")
    }

    /// Allocates the next `MemoryRevisionId`: `mr` and the saturated incremented counter.
    pub fn revision(&mut self) -> (r: MemoryRevisionId)
        ensures
            final(self).counter(1) == sat_succ(old(self).counter(1)),
            forall|k: int| 0 <= k < 8 && k != 1 ==> final(self).counter(k) == old(self).counter(k),
            r@ == memory_id_prefix(1) + decimal(final(self).counter(1) as nat),
    {
        self.next(1, "mr")
    }

    /// Allocates the next `BufferId`: `buf` and the saturated incremented counter.
    pub fn buffer(&mut self) -> (r: BufferId)
        ensures
            final(self).counter(2) == sat_succ(old(self).counter(2)),
            forall|k: int| 0 <= k < 8 && k != 2 ==> final(self).counter(k) == old(self).counter(k),
            r@ == memory_id_prefix(2) + decimal(final(self).counter(2) as nat),
    {
        self.next(2, "buf")
    }

    /// Allocates the next `MemoryOperationId`: `mop` and the saturated incremented counter.
    pub fn operation(&mut self) -> (r: MemoryOperationId)
        ensures
            final(self).counter(3) == sat_succ(old(self).counter(3)),
            forall|k: int| 0 <= k < 8 && k != 3 ==> final(self).counter(k) == old(self).counter(k),
            r@ == memory_id_prefix(3) + decimal(final(self).counter(3) as nat),
    {
        self.next(3, "mop")
    }

    /// Allocates the next `AliasDomainId`: `ad` and the saturated incremented counter.
    pub fn alias_domain(&mut self) -> (r: AliasDomainId)
        ensures
            final(self).counter(4) == sat_succ(old(self).counter(4)),
            forall|k: int| 0 <= k < 8 && k != 4 ==> final(self).counter(k) == old(self).counter(k),
            r@ == memory_id_prefix(4) + decimal(final(self).counter(4) as nat),
    {
        self.next(4, "ad")
    }

    /// Allocates the next `MemoryObligationId`: `mo` and the saturated incremented counter.
    pub fn obligation(&mut self) -> (r: MemoryObligationId)
        ensures
            final(self).counter(5) == sat_succ(old(self).counter(5)),
            forall|k: int| 0 <= k < 8 && k != 5 ==> final(self).counter(k) == old(self).counter(k),
            r@ == memory_id_prefix(5) + decimal(final(self).counter(5) as nat),
    {
        self.next(5, "mo")
    }

    /// Allocates the next `MemoryEvidenceId`: `mev` and the saturated incremented counter.
    pub fn evidence(&mut self) -> (r: MemoryEvidenceId)
        ensures
            final(self).counter(6) == sat_succ(old(self).counter(6)),
            forall|k: int| 0 <= k < 8 && k != 6 ==> final(self).counter(k) == old(self).counter(k),
            r@ == memory_id_prefix(6) + decimal(final(self).counter(6) as nat),
    {
        self.next(6, "mev")
    }

    /// Allocates the next `MemoryGuardId`: `mg` and the saturated incremented counter.
    pub fn guard(&mut self) -> (r: MemoryGuardId)
        ensures
            final(self).counter(7) == sat_succ(old(self).counter(7)),
            forall|k: int| 0 <= k < 8 && k != 7 ==> final(self).counter(k) == old(self).counter(k),
            r@ == memory_id_prefix(7) + decimal(final(self).counter(7) as nat),
    {
        self.next(7, "mg")
    }
}

impl Default for MemoryAllocator {
    fn default() -> (r: Self)
        ensures
            forall|k: int| 0 <= k < 8 ==> r.counter(k) == 0,
    {
        MemoryAllocator::new()
    }
}

/// Natural byte alignment of a scalar element.
pub open spec fn spec_scalar_alignment(e: ScalarType) -> u64 {
    match e {
        ScalarType::Bool => 1,
        ScalarType::I32 => 4,
        ScalarType::F32 => 4,
        ScalarType::Index => 8,
    }
}

/// Returns the natural byte alignment of a scalar element.
pub fn scalar_alignment(element: ScalarType) -> (r: u64)
    ensures
        r == spec_scalar_alignment(element),
{
    match element {
        ScalarType::Bool => 1,
        ScalarType::I32 => 4,
        ScalarType::F32 => 4,
        ScalarType::Index => 8,
    }
}

/// Sole compiler-owned runtime memory predicate.
#[derive(Clone, Copy, Debug, PartialEq, Eq, Structural)]
pub enum MemoryGuardPredicate {
    /// Runtime metadata proves two bounded typed regions do not overlap.
    NoOverlap,
}

/// Normalized compiler-owned NoOverlap guard.
#[derive(Debug)]
pub struct MemoryGuard {
    /// Compiler-assigned guard identity.
    pub id: MemoryGuardId,
    /// Sole supported predicate profile.
    pub predicate: MemoryGuardPredicate,
    /// Region reused on the true branch.
    pub primary_buffer: BufferId,
    /// Other region checked for non-overlap.
    pub other_buffer: BufferId,
    /// Trusted runtime metadata dependencies.
    pub dependencies: Vec<String>,
}

/// Immutable exact false-branch storage fragment for guarded reuse.
#[derive(Debug)]
pub struct MemoryFallback {
    /// Logical result produced by the fallback.
    pub result: ImplValueId,
    /// Fully typed fresh result region.
    pub fresh_buffer: MemoryBuffer,
    /// Stable strategy; always `lazy_fresh_allocation`.
    pub strategy: String,
}

/// Immutable SpecIR/candidate/ImplIR anchor for one memory plan.
#[derive(Debug)]
pub struct MemoryAnchor {
    /// Frozen SpecIR revision.
    pub spec_revision: RevisionId,
    /// Immutable frozen specification hash.
    pub spec_hash: SpecHash,
    /// Fully proved exact candidate branch.
    pub candidate: CandidateId,
    /// Explicit immutable candidate revision.
    pub candidate_revision: CandidateRevisionId,
    /// Exact candidate-state hash at creation.
    pub candidate_hash: CandidateHash,
    /// Immutable reachable implementation semantic hash.
    pub impl_hash: ImplHash,
}

/// Lifecycle state of one immutable memory revision.
#[derive(Clone, Copy, Debug, PartialEq, Eq, Structural)]
pub enum MemoryStatus {
    /// Editable fork before complete re-verification.
    Draft,
    /// Typed storage graph is structurally valid.
    WellTyped,
    /// Compiler-owned structural certificates prove exactness.
    Proved,
    /// Exactness composes a compiler guard with a proved fresh fallback.
    Guarded,
    /// Immutable accepted memory plan.
    Sealed,
    /// Integrity verification rejected the state.
    Rejected,
}

/// State of a compiler-owned memory correctness obligation.
#[derive(Clone, Copy, Debug, PartialEq, Eq, Structural)]
pub enum MemoryObligationStatus {
    /// Awaiting a compiler-owned structural proof.
    Open,
    /// Discharged by a compiler-owned structural proof.
    Proved,
    /// Rejected by structural verification.
    Refuted,
}

/// One persistent compiler-owned MemoryIR obligation.
#[derive(Debug)]
pub struct MemoryObligation {
    /// Compiler-assigned identity.
    pub id: MemoryObligationId,
    /// Stable obligation kind.
    pub kind: String,
    /// Current proof state.
    pub status: MemoryObligationStatus,
    /// Immutable implementation anchor.
    pub impl_hash: ImplHash,
    /// Stable normalized detail fields.
    pub details: IdMap<String>,
}

/// Correctness or confidence strength for memory evidence.
#[derive(Clone, Copy, Debug, PartialEq, Eq, Structural)]
pub enum MemoryEvidenceClass {
    /// Compiler-owned structural correctness evidence.
    Correctness,
    /// Reference testing evidence that never proves exactness.
    Confidence,
}

/// Stable compiler-owned memory evidence method.
#[derive(Clone, Copy, Debug, PartialEq, Eq, Structural)]
pub enum MemoryEvidenceKind {
    /// Conservative fresh bufferization certificate.
    FreshBufferization,
    /// Static alias/lifetime proof for in-place reuse.
    InPlaceReuse,
    /// Compiler-owned NoOverlap guard plus exact fresh fallback.
    GuardedReuse,
    /// Recomputed whole-program MemoryEquivalentToImpl proof.
    CompositionalMemoryVerification,
    /// Immutable memory-plan sealing certificate.
    Sealing,
    /// Reference differential/trace confidence evidence.
    DifferentialExecution,
}

/// One compiler-owned memory evidence record.
#[derive(Debug)]
pub struct MemoryEvidenceRecord {
    /// Compiler-assigned evidence identity.
    pub id: MemoryEvidenceId,
    /// Correctness or confidence class.
    pub class: MemoryEvidenceClass,
    /// Stable method kind.
    pub kind: MemoryEvidenceKind,
    /// Memory plan covered by this record.
    pub memory_plan: MemoryPlanId,
    /// Immutable revision covered by this record.
    pub memory_revision: MemoryRevisionId,
    /// Immutable implementation anchor.
    pub impl_hash: ImplHash,
    /// Prior exact memory hash, absent for root bufferization.
    pub input_memory_hash: Option<MemoryHash>,
    /// Resulting exact memory hash.
    pub output_memory_hash: MemoryHash,
    /// Stable validator method name.
    pub method: String,
    /// Memory semantics version.
    pub memory_semantics_version: u32,
    /// Validator implementation version.
    pub validator_version: u32,
}

/// Compiler-owned correctness certificate attached to one memory revision.
#[derive(Debug)]
pub struct MemoryCertificate {
    /// Stable certificate method.
    pub method: String,
    /// Immutable implementation hash.
    pub impl_hash: ImplHash,
    /// Prior exact memory hash, absent for root bufferization.
    pub before_memory_hash: Option<MemoryHash>,
    /// Resulting exact memory hash.
    pub after_memory_hash: Option<MemoryHash>,
    /// Ordered normalized side conditions.
    pub side_conditions: Vec<String>,
    /// Linked correctness evidence.
    pub evidence: MemoryEvidenceId,
    /// Memory semantics version.
    pub memory_semantics_version: u32,
    /// Validator version.
    pub validator_version: u32,
}

/// One immutable typed memory-plan revision.
#[derive(Debug)]
pub struct MemoryRevision {
    /// Compiler-assigned revision identity.
    pub id: MemoryRevisionId,
    /// Immutable parent revisions.
    pub parents: Vec<MemoryRevisionId>,
    /// Separate typed physical storage graph.
    pub program: MemoryProgram,
    /// Exact MemoryIR state hash.
    pub memory_hash: MemoryHash,
    /// Immutable implementation semantic anchor.
    pub impl_hash: ImplHash,
    /// Lifecycle state.
    pub status: MemoryStatus,
    /// Compiler-owned correctness obligations.
    pub obligations: Vec<MemoryObligation>,
    /// Compiler-owned structural certificates.
    pub certificates: Vec<MemoryCertificate>,
    /// Ordered evidence references.
    pub evidence: Vec<MemoryEvidenceId>,
}

/// Persistent independent memory-plan revision DAG.
#[derive(Debug)]
pub struct MemoryPlan {
    /// Compiler-assigned plan identity.
    pub id: MemoryPlanId,
    /// Immutable SpecIR/candidate/ImplIR anchor.
    pub anchor: MemoryAnchor,
    /// Root memory revision.
    pub root_revision: MemoryRevisionId,
    /// Current memory head.
    pub head: MemoryRevisionId,
    /// Immutable memory revisions.
    pub revisions: IdMap<MemoryRevision>,
    /// Parent plan provenance for a fork.
    pub parent_plan: Option<MemoryPlanId>,
    /// Parent revision provenance for a fork.
    pub forked_from_revision: Option<MemoryRevisionId>,
}

/// One compiler-verified memory transaction action.
#[derive(Debug)]
pub enum MemoryAction {
    /// Restores the compiler-owned conservative fresh result buffer.
    ChooseFreshBuffer {
        /// Tensor result whose fresh baseline is selected.
        result: ImplValueId,
    },
    /// Requests compiler-proved in-place input storage reuse.
    RequestInPlaceReuse {
        /// Tensor input proposed for overwrite.
        input: ImplValueId,
        /// Tensor result that will use the region.
        result: ImplValueId,
    },
    /// Requests the compiler-owned NoOverlap guarded reuse profile.
    RequestGuardedReuse {
        /// Tensor input proposed for overwrite.
        input: ImplValueId,
        /// Tensor result that will use the region.
        result: ImplValueId,
        /// Other typed region used to instantiate NoOverlap.
        guard_against: BufferId,
    },
    /// Selects a fully explicit legal physical layout.
    SetLayout {
        /// Buffer to update.
        buffer: BufferId,
        /// Requested layout; proof payloads are not accepted.
        layout: MemoryLayout,
    },
    /// Selects an abstract typed address space.
    SetAddressSpace {
        /// Buffer to update.
        buffer: BufferId,
        /// Requested abstract address space.
        address_space: AddressSpace,
    },
    /// Raises or changes a buffer alignment requirement.
    SetAlignment {
        /// Buffer to update.
        buffer: BufferId,
        /// Requested power-of-two byte alignment.
        alignment: u64,
    },
}

/// Atomic memory transaction against an explicit immutable base revision.
#[derive(Debug)]
pub struct MemoryTransaction {
    /// Memory plan to edit.
    pub memory_plan: MemoryPlanId,
    /// Explicit current base revision.
    pub base_memory_revision: MemoryRevisionId,
    /// Required exact base memory hash.
    pub expected_memory_hash: MemoryHash,
    /// Required immutable implementation hash.
    pub expected_impl_hash: ImplHash,
    /// Ordered compiler-verified storage actions.
    pub actions: Vec<MemoryAction>,
}

/// Replayable memory-plan mutation event.
#[derive(Debug)]
pub enum MemoryEvent {
    /// Conservative exact fresh memory root creation.
    Created {
        /// Exact candidate branch anchor.
        candidate: CandidateId,
        /// Explicit candidate revision anchor.
        candidate_revision: CandidateRevisionId,
        /// Expected memory plan ID.
        memory_plan: MemoryPlanId,
        /// Expected root memory revision ID.
        memory_revision: MemoryRevisionId,
        /// Expected exact memory hash.
        memory_hash: MemoryHash,
    },
    /// Atomic memory transaction publication.
    Applied {
        /// Replayable transaction.
        transaction: MemoryTransaction,
        /// Expected child memory revision ID.
        memory_revision: MemoryRevisionId,
        /// Expected exact memory hash.
        memory_hash: MemoryHash,
    },
    /// Explicit memory-plan fork.
    Forked {
        /// Parent memory plan.
        parent_plan: MemoryPlanId,
        /// Parent immutable revision.
        parent_revision: MemoryRevisionId,
        /// Expected child plan.
        memory_plan: MemoryPlanId,
        /// Expected child root revision.
        memory_revision: MemoryRevisionId,
        /// Expected child exact memory hash.
        memory_hash: MemoryHash,
    },
    /// Immutable memory-plan seal transition.
    Sealed {
        /// Memory plan.
        memory_plan: MemoryPlanId,
        /// Explicit base revision.
        base_revision: MemoryRevisionId,
        /// Required base exact memory hash.
        expected_memory_hash: MemoryHash,
        /// Expected sealed revision.
        memory_revision: MemoryRevisionId,
        /// Expected sealed exact memory hash.
        memory_hash: MemoryHash,
    },
}

/// Memory event paired with explicit cross-store dependency cursors.
#[derive(Debug)]
pub struct VersionedMemoryEvent {
    /// Memory event semantics version.
    pub semantics_version: u32,
    /// Candidate events that must exist before this event.
    pub candidate_event_cursor: u64,
    /// Equality events that must exist before this event.
    pub equality_event_cursor: u64,
    /// Replayable memory event.
    pub event: MemoryEvent,
}

/// Read-only memory-plan summary.
#[derive(Debug)]
pub struct MemoryQuery {
    /// Memory plan.
    pub memory_plan: MemoryPlanId,
    /// Selected immutable memory revision.
    pub memory_revision: MemoryRevisionId,
    /// Exact memory hash.
    pub memory_hash: MemoryHash,
    /// Immutable implementation hash.
    pub impl_hash: ImplHash,
    /// Lifecycle state.
    pub status: MemoryStatus,
    /// Active typed buffer count.
    pub buffer_count: usize,
    /// Explicit typed access count.
    pub access_count: usize,
    /// Fresh result decision count.
    pub fresh_buffer_count: usize,
    /// Proved in-place decision count.
    pub reused_buffer_count: usize,
    /// Guarded decision count.
    pub guarded_buffer_count: usize,
    /// Open memory obligations.
    pub open_obligations: Vec<MemoryObligationId>,
    /// Correctness evidence reference count.
    pub correctness_evidence: usize,
    /// Confidence evidence reference count.
    pub confidence_evidence: usize,
}

/// Full structural memory verification report.
#[derive(Debug)]
pub struct MemoryCheckReport {
    /// Read-only state summary.
    pub query: MemoryQuery,
    /// Whether the typed physical graph verified.
    pub well_typed: bool,
    /// Whether MemoryEquivalentToImpl is structurally proved.
    pub equivalent_to_impl: bool,
    /// Whether immutable sealing is legal.
    pub sealable: bool,
}

/// One eligible deterministic result/input reuse choice.
#[derive(Debug)]
pub struct MemoryContinuationChoice {
    /// Tensor result storage decision.
    pub result: ImplValueId,
    /// Candidate input for reuse.
    pub input: ImplValueId,
    /// Whether every static side condition is proved.
    pub statically_applicable: bool,
    /// Stable failed side condition when static proof is unavailable.
    pub failed_side_condition: Option<ErrorCode>,
    /// Fresh allocation remains the exact fallback.
    pub fresh_fallback: bool,
    /// Sole supported guard profile.
    pub supported_guard_profile: String,
}

/// Bounded deterministic memory continuation.
#[derive(Debug)]
pub struct MemoryContinuation {
    /// Memory plan.
    pub memory_plan: MemoryPlanId,
    /// Memory revision inspected.
    pub memory_revision: MemoryRevisionId,
    /// Required exact memory hash.
    pub expected_memory_hash: MemoryHash,
    /// Required immutable implementation hash.
    pub expected_impl_hash: ImplHash,
    /// Bounded parameteric reuse choices.
    pub reuse_choices: Vec<MemoryContinuationChoice>,
    /// Legal abstract address-space domain.
    pub address_spaces: Vec<AddressSpace>,
    /// Legal small layout domain.
    pub layouts: Vec<String>,
}

/// Persistent independent memory plans, evidence, allocator, and event history.
#[derive(Debug)]
pub struct MemoryPlanStore {
    /// Memory plan branches by compiler-assigned ID.
    pub plans: IdMap<MemoryPlan>,
    /// Compiler-owned memory evidence records.
    pub evidence: IdMap<MemoryEvidenceRecord>,
    /// Memory-local allocator state.
    pub allocator: MemoryAllocator,
    /// Ordered replayable memory event log.
    pub events: Vec<VersionedMemoryEvent>,
}


impl MemoryPlanStore {
    /// Creates an empty store.
    pub fn new() -> (r: Self)
        ensures
            r.plans@ == Map::<Seq<char>, MemoryPlan>::empty(),
            r.evidence@ == Map::<Seq<char>, MemoryEvidenceRecord>::empty(),
            forall|k: int| 0 <= k < 8 ==> r.allocator.counter(k) == 0,
            r.events@.len() == 0,
    {
        MemoryPlanStore { plans: IdMap::new(), evidence: IdMap::new(), allocator: MemoryAllocator::new(), events: Vec::new() }
    }

    /// Returns one persistent memory plan.
    pub fn plan(&self, plan: &str) -> (r: AgentResult<&MemoryPlan>)
        ensures
            match r {
                Ok(p) => self.plans@.contains_key(plan@) && *p == self.plans@[plan@],
                Err(e) => !self.plans@.contains_key(plan@) && e.code == ErrorCode::MemoryPlanNotFound,
            },
    {
        match self.plans.get(plan) {
            Some(p) => Ok(p),
            None => Err(AgentError::new(ErrorCode::MemoryPlanNotFound, "memory plan does not exist")),
        }
    }

    /// Returns one immutable memory revision.
    pub fn revision(&self, plan: &str, revision: &str) -> (r: AgentResult<&MemoryRevision>)
        ensures
            !self.plans@.contains_key(plan@) ==> (r matches Err(e) && e.code == ErrorCode::MemoryPlanNotFound),
            self.plans@.contains_key(plan@) ==> match r {
                Ok(x) => self.plans@[plan@].revisions@.contains_key(revision@) && *x == self.plans@[plan@].revisions@[revision@],
                Err(e) => !self.plans@[plan@].revisions@.contains_key(revision@) && e.code == ErrorCode::MemoryRevisionNotFound,
            },
    {
        let p = self.plan(plan)?;
        match p.revisions.get(revision) {
            Some(x) => Ok(x),
            None => Err(AgentError::new(ErrorCode::MemoryRevisionNotFound, "memory revision does not exist")),
        }
    }

    /// Returns the compiler-owned alias fact for two buffers of one revision.
    pub fn alias_query(&self, plan: &str, revision: &str, first: &str, second: &str) -> (r: AgentResult<AliasFact>)
        ensures
            !self.plans@.contains_key(plan@) ==> (r matches Err(e) && e.code == ErrorCode::MemoryPlanNotFound),
            self.plans@.contains_key(plan@) && !self.plans@[plan@].revisions@.contains_key(revision@) ==> (r matches Err(
                e,
            ) && e.code == ErrorCode::MemoryRevisionNotFound),
            self.plans@.contains_key(plan@) && self.plans@[plan@].revisions@.contains_key(revision@) ==> match spec_alias_relation(
                self.plans@[plan@].revisions@[revision@].program,
                first@,
                second@,
            ) {
                Ok(f) => r matches Ok(x) && fact_same(x, f),
                Err(c) => r matches Err(e) && e.code == c,
            },
    {
        let rev = self.revision(plan, revision)?;
        alias_relation(&rev.program, first, second)
    }

    /// Returns one typed buffer of one revision.
    pub fn buffer_query(&self, plan: &str, revision: &str, buffer: &str) -> (r: AgentResult<&MemoryBuffer>)
        ensures
            !self.plans@.contains_key(plan@) ==> (r matches Err(e) && e.code == ErrorCode::MemoryPlanNotFound),
            self.plans@.contains_key(plan@) && !self.plans@[plan@].revisions@.contains_key(revision@) ==> (r matches Err(
                e,
            ) && e.code == ErrorCode::MemoryRevisionNotFound),
            self.plans@.contains_key(plan@) && self.plans@[plan@].revisions@.contains_key(revision@) ==> {
                let program = self.plans@[plan@].revisions@[revision@].program;
                match r {
                    Ok(b) => program.buffers@.contains_key(buffer@) && *b == program.buffers@[buffer@],
                    Err(e) => !program.buffers@.contains_key(buffer@) && e.code == ErrorCode::BufferNotFound,
                }
            },
    {
        let rev = self.revision(plan, revision)?;
        match rev.program.buffers.get(buffer) {
            Some(b) => Ok(b),
            None => Err(AgentError::new(ErrorCode::BufferNotFound, "buffer does not exist")),
        }
    }
}

/// Numbers of fresh, in-place and guarded reuse decisions.
pub open spec fn decision_counts(d: Seq<(Seq<char>, ReuseDecision)>) -> (nat, nat, nat)
    decreases d.len(),
{
    if d.len() == 0 {
        (0, 0, 0)
    } else {
        let (f, r, g) = decision_counts(d.drop_last());
        match d.last().1 {
            ReuseDecision::Fresh { .. } => (f + 1, r, g),
            ReuseDecision::InPlace { .. } => (f, r + 1, g),
            ReuseDecision::Guarded { .. } => (f, r, g + 1),
        }
    }
}

/// Numbers of referenced correctness and confidence evidence records;
/// references to missing records count for neither.
pub open spec fn evidence_counts(ev: Seq<String>, records: Map<Seq<char>, MemoryEvidenceRecord>) -> (nat, nat)
    decreases ev.len(),
{
    if ev.len() == 0 {
        (0, 0)
    } else {
        let (c, f) = evidence_counts(ev.drop_last(), records);
        let k = ev.last()@;
        if !records.contains_key(k) {
            (c, f)
        } else if records[k].class == MemoryEvidenceClass::Correctness {
            (c + 1, f)
        } else {
            (c, f + 1)
        }
    }
}

/// Total number of explicit buffer accesses over the operations.
pub open spec fn access_total(ops: Seq<(Seq<char>, MemoryOperation)>) -> nat
    decreases ops.len(),
{
    if ops.len() == 0 {
        0
    } else {
        access_total(ops.drop_last()) + ops.last().1.accesses@.len()
    }
}

/// Identities of the open obligations, in order.
pub open spec fn open_obligation_ids(obs: Seq<MemoryObligation>) -> Seq<Seq<char>>
    decreases obs.len(),
{
    if obs.len() == 0 {
        Seq::empty()
    } else {
        let prior = open_obligation_ids(obs.drop_last());
        if obs.last().status == MemoryObligationStatus::Open {
            prior.push(obs.last().id@)
        } else {
            prior
        }
    }
}

/// Builds the read-only summary of one memory revision of a plan.
pub fn make_query(store: &MemoryPlanStore, plan: &MemoryPlan, revision: &MemoryRevision) -> (r: MemoryQuery)
    requires
        access_total(revision.program.operations.kv()) <= usize::MAX,
    ensures
        r.memory_plan@ == plan.id@,
        r.memory_revision@ == revision.id@,
        r.memory_hash.0@ == revision.memory_hash.0@,
        r.impl_hash.0@ == revision.impl_hash.0@,
        r.status == revision.status,
        r.buffer_count == revision.program.buffers.kv().len(),
        r.access_count == access_total(revision.program.operations.kv()),
        (r.fresh_buffer_count as nat, r.reused_buffer_count as nat, r.guarded_buffer_count as nat) == decision_counts(
            revision.program.reuse_decisions.kv(),
        ),
        r.open_obligations@.map_values(|s: String| s@) == open_obligation_ids(revision.obligations@),
        (r.correctness_evidence as nat, r.confidence_evidence as nat) == evidence_counts(revision.evidence@, store.evidence@),
{
    let decisions = &revision.program.reuse_decisions;
    let ghost dkv = decisions.kv();
    let mut fresh: usize = 0;
    let mut reused: usize = 0;
    let mut guarded: usize = 0;
    let mut i: usize = 0;
    while i < decisions.len()
        invariant
            dkv == decisions.kv(),
            i <= dkv.len(),
            (fresh as nat, reused as nat, guarded as nat) == decision_counts(dkv.take(i as int)),
            fresh + reused + guarded == i,
        decreases dkv.len() - i,
    {
        let (_, decision) = decisions.entry_at(i);
        proof {
            assert(dkv.take(i + 1).drop_last() == dkv.take(i as int));
        }
        match decision {
            ReuseDecision::Fresh { .. } => fresh = fresh + 1,
            ReuseDecision::InPlace { .. } => reused = reused + 1,
            ReuseDecision::Guarded { .. } => guarded = guarded + 1,
        }
        i = i + 1;
    }
    proof {
        assert(dkv.take(dkv.len() as int) == dkv);
    }
    let ev = &revision.evidence;
    let mut correctness: usize = 0;
    let mut confidence: usize = 0;
    let mut j: usize = 0;
    while j < ev.len()
        invariant
            j <= ev@.len(),
            (correctness as nat, confidence as nat) == evidence_counts(ev@.take(j as int), store.evidence@),
            correctness + confidence <= j,
        decreases ev@.len() - j,
    {
        proof {
            assert(ev@.take(j + 1).drop_last() == ev@.take(j as int));
        }
        match store.evidence.get(ev[j].as_str()) {
            Some(record) => {
                if record.class == MemoryEvidenceClass::Correctness {
                    correctness = correctness + 1;
                } else {
                    confidence = confidence + 1;
                }
            },
            None => {},
        }
        j = j + 1;
    }
    proof {
        assert(ev@.take(ev@.len() as int) == ev@);
    }
    let ops = &revision.program.operations;
    let ghost okv = ops.kv();
    let mut accesses: usize = 0;
    let mut k: usize = 0;
    while k < ops.len()
        invariant
            okv == ops.kv(),
            k <= okv.len(),
            accesses == access_total(okv.take(k as int)),
            access_total(okv) <= usize::MAX,
        decreases okv.len() - k,
    {
        let (_, op) = ops.entry_at(k);
        proof {
            assert(okv.take(k + 1).drop_last() == okv.take(k as int));
            lemma_access_total_prefix(okv, k as int + 1);
        }
        accesses = accesses + op.accesses.len();
        k = k + 1;
    }
    proof {
        assert(okv.take(okv.len() as int) == okv);
    }
    let obs = &revision.obligations;
    let mut open: Vec<MemoryObligationId> = Vec::new();
    let mut t: usize = 0;
    while t < obs.len()
        invariant
            t <= obs@.len(),
            open@.map_values(|s: String| s@) == open_obligation_ids(obs@.take(t as int)),
        decreases obs@.len() - t,
    {
        proof {
            assert(obs@.take(t + 1).drop_last() == obs@.take(t as int));
        }
        if obs[t].status == MemoryObligationStatus::Open {
            let ghost prev = open@;
            open.push(obs[t].id.clone());
            proof {
                assert(open@ == prev.push(obs@[t as int].id));
                assert(open@.map_values(|s: String| s@) == prev.map_values(|s: String| s@).push(obs@[t as int].id@));
            }
        }
        t = t + 1;
    }
    proof {
        assert(obs@.take(obs@.len() as int) == obs@);
    }
    MemoryQuery {
        memory_plan: plan.id.clone(),
        memory_revision: revision.id.clone(),
        memory_hash: MemoryHash::new(revision.memory_hash.0.clone()),
        impl_hash: ImplHash::new(revision.impl_hash.0.clone()),
        status: revision.status,
        buffer_count: revision.program.buffers.len(),
        access_count: accesses,
        fresh_buffer_count: fresh,
        reused_buffer_count: reused,
        guarded_buffer_count: guarded,
        open_obligations: open,
        correctness_evidence: correctness,
        confidence_evidence: confidence,
    }
}

proof fn lemma_access_total_prefix(ops: Seq<(Seq<char>, MemoryOperation)>, k: int)
    requires
        0 <= k <= ops.len(),
    ensures
        access_total(ops.take(k)) <= access_total(ops),
    decreases ops.len() - k,
{
    if k < ops.len() {
        lemma_access_total_prefix(ops, k + 1);
        assert(ops.take(k + 1).drop_last() == ops.take(k));
    } else {
        assert(ops.take(k) == ops);
    }
}

/// Returns one memory plan together with one of its revisions.
pub fn plan_revision<'a>(store: &'a MemoryPlanStore, plan: &str, revision: &str) -> (r: AgentResult<(&'a MemoryPlan, &'a MemoryRevision)>)
    ensures
        !store.plans@.contains_key(plan@) ==> (r matches Err(e) && e.code == ErrorCode::MemoryPlanNotFound),
        store.plans@.contains_key(plan@) ==> match r {
            Ok((p, x)) => *p == store.plans@[plan@] && p.revisions@.contains_key(revision@) && *x == p.revisions@[revision@],
            Err(e) => !store.plans@[plan@].revisions@.contains_key(revision@) && e.code == ErrorCode::MemoryRevisionNotFound,
        },
{
    let p = store.plan(plan)?;
    match p.revisions.get(revision) {
        Some(x) => Ok((p, x)),
        None => Err(AgentError::new(ErrorCode::MemoryRevisionNotFound, "memory revision does not exist")),
    }
}

} // verus!
