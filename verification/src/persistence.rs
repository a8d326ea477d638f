//! Versioned replay events and the first-generation candidate archive schema
//! with its pure migration to the current candidate forest.

use crate::actions::Transaction;
use crate::candidate::{
    Candidate, CandidateAllocator, CandidateEvent, CandidateForest, CandidateHash, CandidateRevision,
    CandidateState, CandidateTransaction, DifferentialValidation, EquivalenceCertificate, EquivalenceObligation,
    EquivalenceStatus, EvidenceClass, EvidenceKind, EvidenceProvenance, EvidenceRecord, EvidenceResult,
    RelationKind, VersionedCandidateEvent,
};
use crate::idmap::{kv_related, sorted_kv, IdMap};
use crate::ids::{
    CandidateId, CandidateObligationId, CandidateRevisionId, EvidenceId, RevisionId, TransactionId, WorkspaceId,
};
use crate::impl_ir::{ImplHash, ImplProgram};
use crate::semantic::SpecHash;
use crate::diagnostics::{AgentError, AgentResult, ErrorCode};
use crate::equality::{EqualitySpace, EqualityStore};
use crate::ids::IdAllocator;
use crate::ir::Program;
use crate::memory::{MemoryPlan, MemoryPlanStore};
use crate::revision::{Revision, StatusSummary};
use crate::text::push_decimal;
use crate::text::seq_less;
use vstd::prelude::*;

verus! {

/// Current compiler semantics used for newly accepted events.
pub const CORE_SEMANTICS_VERSION: u32 = 2;

/// Immutable Stage 1.1 compiler semantics used by archive v1/v2 events.
pub const LEGACY_CORE_SEMANTICS_VERSION: u32 = 1;

/// Current schema version for compiler-core workspace snapshots.
pub const WORKSPACE_SNAPSHOT_VERSION: u32 = 11;

/// Immutable Stage 8A snapshot schema migrated explicitly to v11.
pub const LEGACY_WORKSPACE_SNAPSHOT_V10_VERSION: u32 = 10;

/// Immutable Stage 5 snapshot schema migrated explicitly to v10.
pub const LEGACY_WORKSPACE_SNAPSHOT_V9_VERSION: u32 = 9;

/// Immutable Stage 4 snapshot schema migrated explicitly to v9.
pub const LEGACY_WORKSPACE_SNAPSHOT_V8_VERSION: u32 = 8;

/// Immutable Stage 3 snapshot schema migrated explicitly to v8.
pub const LEGACY_WORKSPACE_SNAPSHOT_V7_VERSION: u32 = 7;

/// Immutable Stage 2C snapshot schema migrated explicitly to v7.
pub const LEGACY_WORKSPACE_SNAPSHOT_V6_VERSION: u32 = 6;

/// Immutable Stage 2B snapshot schema migrated explicitly to v6.
pub const LEGACY_WORKSPACE_SNAPSHOT_V5_VERSION: u32 = 5;

/// Immutable Stage 2A snapshot schema migrated explicitly to v5.
pub const LEGACY_WORKSPACE_SNAPSHOT_V4_VERSION: u32 = 4;

/// Immutable Stage 1.2 snapshot schema migrated explicitly to v4.
pub const LEGACY_WORKSPACE_SNAPSHOT_V3_VERSION: u32 = 3;

/// Immutable Stage 1.1 snapshot schema migrated explicitly to v3.
pub const LEGACY_WORKSPACE_SNAPSHOT_V2_VERSION: u32 = 2;

/// Immutable legacy schema version accepted only by the explicit v1 migration.
pub const LEGACY_WORKSPACE_SNAPSHOT_VERSION: u32 = 1;

/// One deterministic state-changing event in workspace history.
#[derive(Debug)]
pub enum WorkspaceEvent {
    /// A verified ActionIR transaction created a revision.
    TransactionApplied {
        /// Expected compiler-assigned transaction ID.
        transaction_id: TransactionId,
        /// Expected child revision ID.
        revision: RevisionId,
        /// Expected canonical content hash.
        content_hash: String,
        /// Complete replayable transaction.
        transaction: Transaction,
    },
    /// An unchanged child snapshot was forked from an existing revision.
    RevisionForked {
        /// Existing parent revision.
        base_revision: RevisionId,
        /// Expected child revision ID.
        revision: RevisionId,
        /// Expected canonical content hash.
        content_hash: String,
    },
}

/// One event paired with the compiler semantics that originally accepted it.
#[derive(Debug)]
pub struct VersionedWorkspaceEvent {
    /// Compiler/replay semantics version, independent of archive format version.
    pub semantics_version: u32,
    /// Replayable state-changing payload.
    pub event: WorkspaceEvent,
}

/// Candidate lifecycle state as archived by the first candidate codec.
#[derive(Clone, Copy, Debug, PartialEq, Eq, Structural)]
pub enum LegacyCandidateStateV1 {
    Draft,
    WellTyped,
    Equivalent,
    Sealed,
    Rejected,
}

/// Equivalence proof state as archived by the first candidate codec.
#[derive(Clone, Copy, Debug, PartialEq, Eq, Structural)]
pub enum LegacyEquivalenceStatusV1 {
    Open,
    Proved,
}

/// Evidence method kind as archived by the first candidate codec.
#[derive(Clone, Copy, Debug, PartialEq, Eq, Structural)]
pub enum LegacyEvidenceKindV1 {
    IdentityLowering,
    KnownRewriteCertificate,
    CompositionalEquivalence,
    DifferentialTest,
    PropertyTest,
}

/// Candidate allocator counters as archived by the first candidate codec.
#[derive(Debug)]
pub struct LegacyCandidateAllocatorV1 {
    /// Archived `candidate`.
    pub candidate: u64,
    /// Archived `revision`.
    pub revision: u64,
    /// Archived `operation`.
    pub operation: u64,
    /// Archived `value`.
    pub value: u64,
    /// Archived `evidence`.
    pub evidence: u64,
    /// Archived `obligation`.
    pub obligation: u64,
}

/// Equivalence obligation as archived by the first candidate codec.
#[derive(Debug)]
pub struct LegacyEquivalenceObligationV1 {
    /// Archived `id`.
    pub id: CandidateObligationId,
    /// Archived `relation`.
    pub relation: RelationKind,
    /// Archived `spec_hash`.
    pub spec_hash: crate::semantic::SpecHash,
    /// Archived `candidate`.
    pub candidate: CandidateId,
    /// Archived `candidate_revision`.
    pub candidate_revision: CandidateRevisionId,
    /// Archived `impl_hash`.
    pub impl_hash: ImplHash,
    /// Archived `status`.
    pub status: LegacyEquivalenceStatusV1,
}

/// Evidence record as archived by the first candidate codec.
#[derive(Debug)]
pub struct LegacyEvidenceRecordV1 {
    /// Archived evidence ID.
    pub id: EvidenceId,
    /// Archived strength class.
    pub class: EvidenceClass,
    /// Archived method kind.
    pub kind: LegacyEvidenceKindV1,
    /// Archived SpecIR anchor.
    pub spec_hash: SpecHash,
    /// Archived candidate.
    pub candidate: CandidateId,
    /// Archived candidate revision.
    pub candidate_revision: CandidateRevisionId,
    /// Archived input implementation hash.
    pub input_impl_hash: Option<ImplHash>,
    /// Archived output implementation hash.
    pub output_impl_hash: ImplHash,
    /// Archived method or rule ID.
    pub method: String,
    /// Archived parameters.
    pub parameters: IdMap<serde_json::Value>,
    /// Archived outcome.
    pub result: EvidenceResult,
    /// Archived counterexample.
    pub counterexample: Option<serde_json::Value>,
    /// Archived provenance.
    pub provenance: EvidenceProvenance,
}

/// Candidate revision as archived by the first candidate codec.
#[derive(Debug)]
pub struct LegacyCandidateRevisionV1 {
    /// Archived revision ID.
    pub id: CandidateRevisionId,
    /// Archived parents.
    pub parents: Vec<CandidateRevisionId>,
    /// Archived ImplIR snapshot.
    pub impl_program: ImplProgram,
    /// Archived implementation hash.
    pub impl_hash: ImplHash,
    /// Archived candidate hash.
    pub candidate_hash: CandidateHash,
    /// Archived lifecycle state.
    pub state: LegacyCandidateStateV1,
    /// Archived equivalence obligation.
    pub equivalence: LegacyEquivalenceObligationV1,
    /// Archived proof chain.
    pub proof_chain: Vec<EquivalenceCertificate>,
    /// Archived evidence references.
    pub evidence: Vec<EvidenceId>,
}

/// Candidate branch as archived by the first candidate codec.
#[derive(Debug)]
pub struct LegacyCandidateV1 {
    /// Archived branch ID.
    pub id: CandidateId,
    /// Archived frozen SpecIR revision.
    pub spec_revision: RevisionId,
    /// Archived semantic anchor.
    pub spec_hash: SpecHash,
    /// Archived root revision.
    pub root_revision: CandidateRevisionId,
    /// Archived head.
    pub head: CandidateRevisionId,
    /// Archived revisions.
    pub revisions: IdMap<LegacyCandidateRevisionV1>,
    /// Archived parent branch.
    pub parent_candidate: Option<CandidateId>,
    /// Archived fork point.
    pub forked_from_revision: Option<CandidateRevisionId>,
}

/// Candidate event as archived by the first candidate codec.
#[derive(Debug)]
pub enum LegacyCandidateEventV1 {
    /// Archived identity candidate creation.
    Created {
        /// Candidate.
        candidate: CandidateId,
        /// Frozen SpecIR revision.
        spec_revision: RevisionId,
        /// Relation.
        relation: RelationKind,
        /// Root candidate revision.
        candidate_revision: CandidateRevisionId,
        /// Implementation hash.
        impl_hash: ImplHash,
        /// Candidate hash.
        candidate_hash: CandidateHash,
    },
    /// Archived rewrite transaction.
    TransactionApplied {
        /// Transaction.
        transaction: CandidateTransaction,
        /// Child candidate revision.
        candidate_revision: CandidateRevisionId,
        /// Implementation hash.
        impl_hash: ImplHash,
        /// Candidate hash.
        candidate_hash: CandidateHash,
    },
    /// Archived fork.
    Forked {
        /// Parent candidate.
        parent_candidate: CandidateId,
        /// Parent revision.
        parent_revision: CandidateRevisionId,
        /// Child candidate.
        candidate: CandidateId,
        /// Child root revision.
        candidate_revision: CandidateRevisionId,
        /// Candidate hash.
        candidate_hash: CandidateHash,
    },
    /// Archived validation.
    Validated {
        /// Candidate.
        candidate: CandidateId,
        /// Base revision.
        base_revision: CandidateRevisionId,
        /// Child revision.
        candidate_revision: CandidateRevisionId,
        /// Validation result.
        validation: DifferentialValidation,
        /// Candidate hash.
        candidate_hash: CandidateHash,
    },
    /// Archived seal.
    Sealed {
        /// Candidate.
        candidate: CandidateId,
        /// Base revision.
        base_revision: CandidateRevisionId,
        /// Sealed revision.
        candidate_revision: CandidateRevisionId,
        /// Candidate hash.
        candidate_hash: CandidateHash,
    },
}

/// Candidate event with its semantics version as archived by the first codec.
#[derive(Debug)]
pub struct LegacyVersionedCandidateEventV1 {
    /// Archived semantics version.
    pub semantics_version: u32,
    /// Archived event.
    pub event: LegacyCandidateEventV1,
}

/// Candidate forest as archived by the first candidate codec.
#[derive(Debug)]
pub struct LegacyCandidateForestV1 {
    /// Archived candidates.
    pub candidates: IdMap<LegacyCandidateV1>,
    /// Archived evidence.
    pub evidence: IdMap<LegacyEvidenceRecordV1>,
    /// Archived allocator.
    pub allocator: LegacyCandidateAllocatorV1,
    /// Archived event log.
    pub events: Vec<LegacyVersionedCandidateEventV1>,
}

/// The current lifecycle state that an archived state denotes.
pub open spec fn migrated_state(s: LegacyCandidateStateV1) -> CandidateState {
    match s {
        LegacyCandidateStateV1::Draft => CandidateState::Draft,
        LegacyCandidateStateV1::WellTyped => CandidateState::WellTyped,
        LegacyCandidateStateV1::Equivalent => CandidateState::Equivalent,
        LegacyCandidateStateV1::Sealed => CandidateState::Sealed,
        LegacyCandidateStateV1::Rejected => CandidateState::Rejected,
    }
}

/// The current proof state that an archived proof state denotes.
pub open spec fn migrated_status(s: LegacyEquivalenceStatusV1) -> EquivalenceStatus {
    match s {
        LegacyEquivalenceStatusV1::Open => EquivalenceStatus::Open,
        LegacyEquivalenceStatusV1::Proved => EquivalenceStatus::Proved,
    }
}

/// The current evidence method that an archived method denotes.
pub open spec fn migrated_kind(k: LegacyEvidenceKindV1) -> EvidenceKind {
    match k {
        LegacyEvidenceKindV1::IdentityLowering => EvidenceKind::IdentityLowering,
        LegacyEvidenceKindV1::KnownRewriteCertificate => EvidenceKind::KnownRewriteCertificate,
        LegacyEvidenceKindV1::CompositionalEquivalence => EvidenceKind::CompositionalEquivalence,
        LegacyEvidenceKindV1::DifferentialTest => EvidenceKind::DifferentialTest,
        LegacyEvidenceKindV1::PropertyTest => EvidenceKind::PropertyTest,
    }
}

/// Maps an archived lifecycle state to the same current state.
pub fn migrate_candidate_state(state: LegacyCandidateStateV1) -> (r: CandidateState)
    ensures
        r == migrated_state(state),
{
    match state {
        LegacyCandidateStateV1::Draft => CandidateState::Draft,
        LegacyCandidateStateV1::WellTyped => CandidateState::WellTyped,
        LegacyCandidateStateV1::Equivalent => CandidateState::Equivalent,
        LegacyCandidateStateV1::Sealed => CandidateState::Sealed,
        LegacyCandidateStateV1::Rejected => CandidateState::Rejected,
    }
}

/// Maps an archived proof state to the same current state.
pub fn migrate_equivalence_status(status: LegacyEquivalenceStatusV1) -> (r: EquivalenceStatus)
    ensures
        r == migrated_status(status),
{
    match status {
        LegacyEquivalenceStatusV1::Open => EquivalenceStatus::Open,
        LegacyEquivalenceStatusV1::Proved => EquivalenceStatus::Proved,
    }
}

/// Maps an archived evidence method to the same current method.
pub fn migrate_evidence_kind(kind: LegacyEvidenceKindV1) -> (r: EvidenceKind)
    ensures
        r == migrated_kind(kind),
{
    match kind {
        LegacyEvidenceKindV1::IdentityLowering => EvidenceKind::IdentityLowering,
        LegacyEvidenceKindV1::KnownRewriteCertificate => EvidenceKind::KnownRewriteCertificate,
        LegacyEvidenceKindV1::CompositionalEquivalence => EvidenceKind::CompositionalEquivalence,
        LegacyEvidenceKindV1::DifferentialTest => EvidenceKind::DifferentialTest,
        LegacyEvidenceKindV1::PropertyTest => EvidenceKind::PropertyTest,
    }
}

/// The current event that an archived candidate event denotes: the same
/// variant with every field carried over unchanged.
pub open spec fn migrated_event(e: LegacyCandidateEventV1) -> CandidateEvent {
    match e {
        LegacyCandidateEventV1::Created {
            candidate,
            spec_revision,
            relation,
            candidate_revision,
            impl_hash,
            candidate_hash,
        } => CandidateEvent::Created {
            candidate,
            spec_revision,
            relation,
            candidate_revision,
            impl_hash,
            candidate_hash,
        },
        LegacyCandidateEventV1::TransactionApplied { transaction, candidate_revision, impl_hash, candidate_hash } =>
            CandidateEvent::TransactionApplied { transaction, candidate_revision, impl_hash, candidate_hash },
        LegacyCandidateEventV1::Forked {
            parent_candidate,
            parent_revision,
            candidate,
            candidate_revision,
            candidate_hash,
        } => CandidateEvent::Forked {
            parent_candidate,
            parent_revision,
            candidate,
            candidate_revision,
            candidate_hash,
        },
        LegacyCandidateEventV1::Validated {
            candidate,
            base_revision,
            candidate_revision,
            validation,
            candidate_hash,
        } => CandidateEvent::Validated { candidate, base_revision, candidate_revision, validation, candidate_hash },
        LegacyCandidateEventV1::Sealed { candidate, base_revision, candidate_revision, candidate_hash } =>
            CandidateEvent::Sealed { candidate, base_revision, candidate_revision, candidate_hash },
    }
}

/// Carries an archived candidate event over to the current event schema.
pub fn migrate_candidate_event(event: LegacyCandidateEventV1) -> (r: CandidateEvent)
    ensures
        r == migrated_event(event),
{
    match event {
        LegacyCandidateEventV1::Created {
            candidate,
            spec_revision,
            relation,
            candidate_revision,
            impl_hash,
            candidate_hash,
        } => CandidateEvent::Created {
            candidate,
            spec_revision,
            relation,
            candidate_revision,
            impl_hash,
            candidate_hash,
        },
        LegacyCandidateEventV1::TransactionApplied { transaction, candidate_revision, impl_hash, candidate_hash } =>
            CandidateEvent::TransactionApplied { transaction, candidate_revision, impl_hash, candidate_hash },
        LegacyCandidateEventV1::Forked {
            parent_candidate,
            parent_revision,
            candidate,
            candidate_revision,
            candidate_hash,
        } => CandidateEvent::Forked {
            parent_candidate,
            parent_revision,
            candidate,
            candidate_revision,
            candidate_hash,
        },
        LegacyCandidateEventV1::Validated {
            candidate,
            base_revision,
            candidate_revision,
            validation,
            candidate_hash,
        } => CandidateEvent::Validated { candidate, base_revision, candidate_revision, validation, candidate_hash },
        LegacyCandidateEventV1::Sealed { candidate, base_revision, candidate_revision, candidate_hash } =>
            CandidateEvent::Sealed { candidate, base_revision, candidate_revision, candidate_hash },
    }
}

/// The current equivalence obligation that an archived one denotes.
pub open spec fn migrated_obligation(o: LegacyEquivalenceObligationV1) -> EquivalenceObligation {
    EquivalenceObligation {
        id: o.id,
        relation: o.relation,
        spec_hash: o.spec_hash,
        candidate: o.candidate,
        candidate_revision: o.candidate_revision,
        impl_hash: o.impl_hash,
        status: migrated_status(o.status),
    }
}

/// The current candidate revision that an archived one denotes.
pub open spec fn migrated_revision(r: LegacyCandidateRevisionV1) -> CandidateRevision {
    CandidateRevision {
        id: r.id,
        parents: r.parents,
        impl_program: r.impl_program,
        impl_hash: r.impl_hash,
        candidate_hash: r.candidate_hash,
        state: migrated_state(r.state),
        equivalence: migrated_obligation(r.equivalence),
        proof_chain: r.proof_chain,
        evidence: r.evidence,
    }
}

/// The current evidence record that an archived one denotes.
pub open spec fn migrated_record(r: LegacyEvidenceRecordV1) -> EvidenceRecord {
    EvidenceRecord {
        id: r.id,
        class: r.class,
        kind: migrated_kind(r.kind),
        spec_hash: r.spec_hash,
        candidate: r.candidate,
        candidate_revision: r.candidate_revision,
        input_impl_hash: r.input_impl_hash,
        output_impl_hash: r.output_impl_hash,
        method: r.method,
        parameters: r.parameters,
        result: r.result,
        counterexample: r.counterexample,
        provenance: r.provenance,
    }
}

/// Whether `n` is the current form of the archived branch `o`: the same
/// scalar fields, and the same revision keys in the same order, each
/// revision migrated.
pub open spec fn candidate_migrated(o: LegacyCandidateV1, n: Candidate) -> bool {
    &&& n.id == o.id
    &&& n.spec_revision == o.spec_revision
    &&& n.spec_hash == o.spec_hash
    &&& n.root_revision == o.root_revision
    &&& n.head == o.head
    &&& n.parent_candidate == o.parent_candidate
    &&& n.forked_from_revision == o.forked_from_revision
    &&& kv_related(
        o.revisions.kv(),
        n.revisions.kv(),
        |a: LegacyCandidateRevisionV1, b: CandidateRevision| b == migrated_revision(a),
    )
}

fn migrate_revision(revision: LegacyCandidateRevisionV1) -> (r: CandidateRevision)
    ensures
        r == migrated_revision(revision),
{
    let e = revision.equivalence;
    let status = migrate_equivalence_status(e.status);
    let equivalence = EquivalenceObligation {
        id: e.id,
        relation: e.relation,
        spec_hash: e.spec_hash,
        candidate: e.candidate,
        candidate_revision: e.candidate_revision,
        impl_hash: e.impl_hash,
        status,
    };
    let state = migrate_candidate_state(revision.state);
    CandidateRevision {
        id: revision.id,
        parents: revision.parents,
        impl_program: revision.impl_program,
        impl_hash: revision.impl_hash,
        candidate_hash: revision.candidate_hash,
        state,
        equivalence,
        proof_chain: revision.proof_chain,
        evidence: revision.evidence,
    }
}

fn migrate_record(record: LegacyEvidenceRecordV1) -> (r: EvidenceRecord)
    ensures
        r == migrated_record(record),
{
    let kind = migrate_evidence_kind(record.kind);
    EvidenceRecord {
        id: record.id,
        class: record.class,
        kind,
        spec_hash: record.spec_hash,
        candidate: record.candidate,
        candidate_revision: record.candidate_revision,
        input_impl_hash: record.input_impl_hash,
        output_impl_hash: record.output_impl_hash,
        method: record.method,
        parameters: record.parameters,
        result: record.result,
        counterexample: record.counterexample,
        provenance: record.provenance,
    }
}

fn migrate_revisions(revisions: IdMap<LegacyCandidateRevisionV1>) -> (r: IdMap<CandidateRevision>)
    ensures
        kv_related(
            revisions.kv(),
            r.kv(),
            |a: LegacyCandidateRevisionV1, b: CandidateRevision| b == migrated_revision(a),
        ),
{
    let ghost okv = revisions.kv();
    let src = revisions;
    let mut entries = {
        let e = src.into_entries();
        proof {
            assert forall|j: int| 0 <= j < e@.len() implies #[trigger] e@[j].0@ == okv[j].0 && e@[j].1 == okv[j].1 by {
                assert(e@.map_values(|x: (String, LegacyCandidateRevisionV1)| (x.0@, x.1))[j] == okv[j]);
            }
        }
        e
    };
    let mut out = IdMap::new();
    let ghost mut i: int = 0;
    while entries.len() > 0
        invariant
            sorted_kv(okv),
            0 <= i <= okv.len(),
            entries@.len() == okv.len() - i,
            forall|j: int| 0 <= j < entries@.len() ==> #[trigger] entries@[j].0@ == okv[i + j].0 && entries@[j].1 == okv[i + j].1,
            out.kv().len() == i,
            forall|j: int| 0 <= j < i ==> #[trigger] out.kv()[j].0 == okv[j].0 && out.kv()[j].1 == migrated_revision(okv[j].1),
        decreases entries.len(),
    {
        let ghost before = entries@;
        let (k, v) = entries.remove(0);
        proof {
            assert(before[0].0@ == okv[i].0);
            assert forall|j: int| 0 <= j < entries@.len() implies #[trigger] entries@[j].0@ == okv[i + 1 + j].0 && entries@[j].1 == okv[i + 1 + j].1 by {
                assert(entries@[j] == before[j + 1]);
            }
            if i > 0 {
                assert(out.kv().last().0 == okv[i - 1].0);
                assert(seq_less(okv[i - 1].0, okv[i].0));
            }
        }
        let m = migrate_revision(v);
        out.push_ordered(k, m);
        proof {
            i = i + 1;
        }
    }
    out
}

fn migrate_candidate(candidate: LegacyCandidateV1) -> (r: Candidate)
    ensures
        candidate_migrated(candidate, r),
{
    let revisions = migrate_revisions(candidate.revisions);
    Candidate {
        id: candidate.id,
        spec_revision: candidate.spec_revision,
        spec_hash: candidate.spec_hash,
        root_revision: candidate.root_revision,
        head: candidate.head,
        revisions,
        parent_candidate: candidate.parent_candidate,
        forked_from_revision: candidate.forked_from_revision,
    }
}

fn migrate_candidates(candidates: IdMap<LegacyCandidateV1>) -> (r: IdMap<Candidate>)
    ensures
        kv_related(candidates.kv(), r.kv(), |a: LegacyCandidateV1, b: Candidate| candidate_migrated(a, b)),
{
    let ghost okv = candidates.kv();
    let src = candidates;
    let mut entries = {
        let e = src.into_entries();
        proof {
            assert forall|j: int| 0 <= j < e@.len() implies #[trigger] e@[j].0@ == okv[j].0 && e@[j].1 == okv[j].1 by {
                assert(e@.map_values(|x: (String, LegacyCandidateV1)| (x.0@, x.1))[j] == okv[j]);
            }
        }
        e
    };
    let mut out = IdMap::new();
    let ghost mut i: int = 0;
    while entries.len() > 0
        invariant
            sorted_kv(okv),
            0 <= i <= okv.len(),
            entries@.len() == okv.len() - i,
            forall|j: int| 0 <= j < entries@.len() ==> #[trigger] entries@[j].0@ == okv[i + j].0 && entries@[j].1 == okv[i + j].1,
            out.kv().len() == i,
            forall|j: int| 0 <= j < i ==> #[trigger] out.kv()[j].0 == okv[j].0 && candidate_migrated(okv[j].1, out.kv()[j].1),
        decreases entries.len(),
    {
        let ghost before = entries@;
        let (k, v) = entries.remove(0);
        proof {
            assert(before[0].0@ == okv[i].0);
            assert forall|j: int| 0 <= j < entries@.len() implies #[trigger] entries@[j].0@ == okv[i + 1 + j].0 && entries@[j].1 == okv[i + 1 + j].1 by {
                assert(entries@[j] == before[j + 1]);
            }
            if i > 0 {
                assert(out.kv().last().0 == okv[i - 1].0);
                assert(seq_less(okv[i - 1].0, okv[i].0));
            }
        }
        let m = migrate_candidate(v);
        out.push_ordered(k, m);
        proof {
            i = i + 1;
        }
    }
    out
}

fn migrate_records(evidence: IdMap<LegacyEvidenceRecordV1>) -> (r: IdMap<EvidenceRecord>)
    ensures
        kv_related(evidence.kv(), r.kv(), |a: LegacyEvidenceRecordV1, b: EvidenceRecord| b == migrated_record(a)),
{
    let ghost okv = evidence.kv();
    let src = evidence;
    let mut entries = {
        let e = src.into_entries();
        proof {
            assert forall|j: int| 0 <= j < e@.len() implies #[trigger] e@[j].0@ == okv[j].0 && e@[j].1 == okv[j].1 by {
                assert(e@.map_values(|x: (String, LegacyEvidenceRecordV1)| (x.0@, x.1))[j] == okv[j]);
            }
        }
        e
    };
    let mut out = IdMap::new();
    let ghost mut i: int = 0;
    while entries.len() > 0
        invariant
            sorted_kv(okv),
            0 <= i <= okv.len(),
            entries@.len() == okv.len() - i,
            forall|j: int| 0 <= j < entries@.len() ==> #[trigger] entries@[j].0@ == okv[i + j].0 && entries@[j].1 == okv[i + j].1,
            out.kv().len() == i,
            forall|j: int| 0 <= j < i ==> #[trigger] out.kv()[j].0 == okv[j].0 && out.kv()[j].1 == migrated_record(okv[j].1),
        decreases entries.len(),
    {
        let ghost before = entries@;
        let (k, v) = entries.remove(0);
        proof {
            assert(before[0].0@ == okv[i].0);
            assert forall|j: int| 0 <= j < entries@.len() implies #[trigger] entries@[j].0@ == okv[i + 1 + j].0 && entries@[j].1 == okv[i + 1 + j].1 by {
                assert(entries@[j] == before[j + 1]);
            }
            if i > 0 {
                assert(out.kv().last().0 == okv[i - 1].0);
                assert(seq_less(okv[i - 1].0, okv[i].0));
            }
        }
        let m = migrate_record(v);
        out.push_ordered(k, m);
        proof {
            i = i + 1;
        }
    }
    out
}

fn migrate_events(events: Vec<LegacyVersionedCandidateEventV1>) -> (r: Vec<VersionedCandidateEvent>)
    ensures
        r.len() == events.len(),
        forall|i: int|
            0 <= i < events.len() ==> (#[trigger] r[i]).semantics_version == events[i].semantics_version
                && r[i].event == migrated_event(events[i].event),
{
    let ghost old_events = events@;
    let mut rest = events;
    let mut out: Vec<VersionedCandidateEvent> = Vec::new();
    while rest.len() > 0
        invariant
            out.len() + rest.len() == old_events.len(),
            rest@ == old_events.skip(out.len() as int),
            forall|i: int|
                0 <= i < out.len() ==> (#[trigger] out[i]).semantics_version == old_events[i].semantics_version
                    && out[i].event == migrated_event(old_events[i].event),
        decreases rest.len(),
    {
        let ghost before = rest@;
        let e = rest.remove(0);
        proof {
            assert(before[0] == old_events[out.len() as int]);
            assert(rest@ =~= old_events.skip(out.len() + 1));
        }
        let event = migrate_candidate_event(e.event);
        out.push(VersionedCandidateEvent { semantics_version: e.semantics_version, event });
    }
    out
}

/// Whether `n` is the current form of the archived forest `o`: candidates,
/// revisions, evidence and events carried over in order with their legacy
/// states mapped, and the allocator resuming from the archived counters.
pub open spec fn forest_migrated(o: LegacyCandidateForestV1, n: CandidateForest) -> bool {
    &&& kv_related(o.candidates.kv(), n.candidates.kv(), |a: LegacyCandidateV1, b: Candidate| candidate_migrated(a, b))
    &&& kv_related(o.evidence.kv(), n.evidence.kv(), |a: LegacyEvidenceRecordV1, b: EvidenceRecord| b == migrated_record(a))
    &&& n.events.len() == o.events.len()
    &&& forall|i: int|
        0 <= i < o.events.len() ==> (#[trigger] n.events[i]).semantics_version == o.events[i].semantics_version
            && n.events[i].event == migrated_event(o.events[i].event)
    &&& n.allocator.spec_candidate() == o.allocator.candidate
    &&& n.allocator.spec_revision() == o.allocator.revision
    &&& n.allocator.spec_operation() == o.allocator.operation
    &&& n.allocator.spec_value() == o.allocator.value
    &&& n.allocator.spec_evidence() == o.allocator.evidence
    &&& n.allocator.spec_obligation() == o.allocator.obligation
}

/// Migrates the first-generation candidate forest to the current schema:
/// every candidate, revision, evidence record and event is carried over in
/// its original key order with its legacy states mapped to the current ones,
/// and the allocator resumes from the archived counters.
pub fn migrate_candidate_forest_v1(forest: LegacyCandidateForestV1) -> (r: CandidateForest)
    ensures
        forest_migrated(forest, r),
{
    let a = forest.allocator;
    let allocator = CandidateAllocator::from_legacy_counters(
        a.candidate,
        a.revision,
        a.operation,
        a.value,
        a.evidence,
        a.obligation,
    );
    let candidates = migrate_candidates(forest.candidates);
    let evidence = migrate_records(forest.evidence);
    let events = migrate_events(forest.events);
    CandidateForest { candidates, evidence, allocator, events }
}

// ---------------------------------------------------------------------------
// Workspace snapshot schemas one to seven and their pure migrations.

/// Revision representation embedded in immutable archive format version 1.
#[derive(Debug)]
pub struct LegacyRevisionV1 {
    /// Persistent revision ID.
    pub id: RevisionId,
    /// Immutable parent revision IDs.
    pub parents: Vec<RevisionId>,
    /// History-sensitive content hash retained unchanged during migration.
    pub content_hash: String,
    /// Full Stage 1 graph snapshot.
    pub program: Program,
    /// Transaction that created the revision, absent for roots and forks.
    pub applied_transaction: Option<TransactionId>,
    /// Wall-clock metadata excluded from semantic and content hashes.
    pub created_at_unix_ms: u128,
    /// Cached verifier summary.
    pub status: StatusSummary,
}

/// Immutable compiler-core snapshot schema embedded in archive format version 1.
#[derive(Debug)]
pub struct LegacyWorkspaceSnapshotV1 {
    /// Legacy schema discriminator, which must equal one.
    pub schema_version: u32,
    /// Workspace identity.
    pub workspace: WorkspaceId,
    /// Archived head revision.
    pub head: RevisionId,
    /// Legacy immutable revisions.
    pub revisions: IdMap<LegacyRevisionV1>,
    /// Compiler allocator state.
    pub allocator: IdAllocator,
    /// Ordered replay events.
    pub events: Vec<WorkspaceEvent>,
}

/// Immutable compiler-core snapshot schema embedded in archive format version 2.
#[derive(Debug)]
pub struct LegacyWorkspaceSnapshotV2 {
    /// Legacy schema discriminator, which must equal two.
    pub schema_version: u32,
    /// Workspace identity.
    pub workspace: WorkspaceId,
    /// Current head revision.
    pub head: RevisionId,
    /// Immutable revision snapshots including semantic cache metadata.
    pub revisions: IdMap<Revision>,
    /// Compiler ID counters.
    pub allocator: IdAllocator,
    /// Ordered unversioned Stage 1.1 events.
    pub events: Vec<WorkspaceEvent>,
}

/// Immutable compiler-core snapshot schema embedded in archive format version 3.
#[derive(Debug)]
pub struct LegacyWorkspaceSnapshotV3 {
    /// Legacy schema discriminator, which must equal three.
    pub schema_version: u32,
    /// Workspace identity.
    pub workspace: WorkspaceId,
    /// Current SpecIR head revision.
    pub head: RevisionId,
    /// Immutable SpecIR revisions.
    pub revisions: IdMap<Revision>,
    /// Legacy SpecIR compiler allocator.
    pub allocator: IdAllocator,
    /// Semantics-versioned SpecIR event log.
    pub events: Vec<VersionedWorkspaceEvent>,
}

/// Immutable workspace snapshot schema embedded in archive format v4.
#[derive(Debug)]
pub struct LegacyWorkspaceSnapshotV4 {
    /// Legacy schema discriminator, which must equal four.
    pub schema_version: u32,
    /// Workspace identity.
    pub workspace: WorkspaceId,
    /// Current SpecIR head.
    pub head: RevisionId,
    /// Immutable SpecIR revisions.
    pub revisions: IdMap<Revision>,
    /// SpecIR allocator state.
    pub allocator: IdAllocator,
    /// Semantics-versioned SpecIR events.
    pub events: Vec<VersionedWorkspaceEvent>,
    /// Exact Stage 2A CandidateForest v1 representation.
    pub candidate_forest: LegacyCandidateForestV1,
}

/// Immutable compiler-core snapshot schema embedded in archive format version 5.
#[derive(Debug)]
pub struct LegacyWorkspaceSnapshotV5 {
    /// Legacy schema discriminator, which must equal five.
    pub schema_version: u32,
    /// Workspace identity.
    pub workspace: WorkspaceId,
    /// Current SpecIR head revision.
    pub head: RevisionId,
    /// Immutable SpecIR revisions.
    pub revisions: IdMap<Revision>,
    /// SpecIR compiler allocator.
    pub allocator: IdAllocator,
    /// Semantics-versioned SpecIR event log.
    pub events: Vec<VersionedWorkspaceEvent>,
    /// Stage 2B CandidateForest, including exact and speculative histories.
    pub candidate_forest: CandidateForest,
}

/// Immutable compiler-core snapshot schema embedded in archive format version 6.
#[derive(Debug)]
pub struct LegacyWorkspaceSnapshotV6 {
    /// Legacy schema discriminator, which must equal six.
    pub schema_version: u32,
    /// Workspace identity.
    pub workspace: WorkspaceId,
    /// Current SpecIR head revision.
    pub head: RevisionId,
    /// Immutable SpecIR revisions.
    pub revisions: IdMap<Revision>,
    /// SpecIR compiler allocator.
    pub allocator: IdAllocator,
    /// Semantics-versioned SpecIR event log.
    pub events: Vec<VersionedWorkspaceEvent>,
    /// Stage 2B CandidateForest.
    pub candidate_forest: CandidateForest,
    /// Stage 2C exact equality store.
    pub equality_store: EqualityStore,
}

/// Immutable compiler-core snapshot schema embedded in archive format version 7.
#[derive(Debug)]
pub struct LegacyWorkspaceSnapshotV7 {
    /// Legacy schema discriminator, which must equal seven.
    pub schema_version: u32,
    /// Workspace identity.
    pub workspace: WorkspaceId,
    /// Current SpecIR head revision.
    pub head: RevisionId,
    /// Immutable SpecIR revisions.
    pub revisions: IdMap<Revision>,
    /// SpecIR compiler allocator.
    pub allocator: IdAllocator,
    /// Semantics-versioned SpecIR event log.
    pub events: Vec<VersionedWorkspaceEvent>,
    /// Stage 2 CandidateForest.
    pub candidate_forest: CandidateForest,
    /// Stage 2C exact equality store.
    pub equality_store: EqualityStore,
    /// Stage 3 MemoryIR plan store.
    pub memory_store: MemoryPlanStore,
}

/// The number of revisions over a prefix of the archived candidates,
/// saturating at `u64::MAX`.
pub open spec fn revision_total(kv: Seq<(Seq<char>, LegacyCandidateV1)>, i: nat) -> u64
    decreases i,
{
    if i == 0 {
        0
    } else {
        let prev = revision_total(kv, (i - 1) as nat);
        let n = kv[i - 1].1.revisions.spec_len();
        if prev + n > u64::MAX {
            u64::MAX
        } else {
            (prev + n) as u64
        }
    }
}

impl LegacyWorkspaceSnapshotV4 {
    /// Returns the number of legacy candidate events for archive preflight/metadata.
    pub fn candidate_event_count(&self) -> (r: usize)
        ensures
            r == self.candidate_forest.events@.len(),
    {
        self.candidate_forest.events.len()
    }

    /// Returns legacy candidate, revision (saturating) and evidence counts
    /// for hard-cap preflight.
    pub fn candidate_counts(&self) -> (r: (usize, u64, usize))
        ensures
            r.0 == self.candidate_forest.candidates.spec_len(),
            r.1 == revision_total(
                self.candidate_forest.candidates.kv(),
                self.candidate_forest.candidates.spec_len(),
            ),
            r.2 == self.candidate_forest.evidence.spec_len(),
    {
        let candidates = &self.candidate_forest.candidates;
        let n = candidates.len();
        let mut total: u64 = 0;
        let mut i: usize = 0;
        while i < n
            invariant
                n == candidates.kv().len(),
                i <= n,
                total == revision_total(candidates.kv(), i as nat),
            decreases n - i,
        {
            let (_, candidate) = candidates.entry_at(i);
            let count = candidate.revisions.len() as u64;
            total = total.saturating_add(count);
            i = i + 1;
        }
        (n, total, self.candidate_forest.evidence.len())
    }
}

fn format_error(found: u32, expected: u32) -> (r: AgentError)
    ensures
        r.code == ErrorCode::PersistenceFormat,
{
    let mut message = String::from_str("legacy workspace snapshot version ");
    push_decimal(&mut message, found as u64);
    message.append(" is unsupported; expected ");
    push_decimal(&mut message, expected as u64);
    AgentError::new(ErrorCode::PersistenceFormat, message.as_str())
}

/// The current revision that an archived first-generation revision denotes:
/// the same fields, with no semantic identity cached.
pub open spec fn migrated_legacy_revision(r: LegacyRevisionV1) -> Revision {
    Revision {
        id: r.id,
        parents: r.parents,
        content_hash: r.content_hash,
        spec_hash: None,
        semantic_canonical_version: None,
        program: r.program,
        applied_transaction: r.applied_transaction,
        created_at_unix_ms: r.created_at_unix_ms,
        status: r.status,
    }
}

fn migrate_legacy_revisions(revisions: IdMap<LegacyRevisionV1>) -> (r: IdMap<Revision>)
    ensures
        kv_related(revisions.kv(), r.kv(), |a: LegacyRevisionV1, b: Revision| b == migrated_legacy_revision(a)),
{
    let ghost okv = revisions.kv();
    let src = revisions;
    let mut entries = {
        let e = src.into_entries();
        proof {
            assert forall|j: int| 0 <= j < e@.len() implies #[trigger] e@[j].0@ == okv[j].0 && e@[j].1 == okv[j].1 by {
                assert(e@.map_values(|x: (String, LegacyRevisionV1)| (x.0@, x.1))[j] == okv[j]);
            }
        }
        e
    };
    let mut out = IdMap::new();
    let ghost mut i: int = 0;
    while entries.len() > 0
        invariant
            sorted_kv(okv),
            0 <= i <= okv.len(),
            entries@.len() == okv.len() - i,
            forall|j: int| 0 <= j < entries@.len() ==> #[trigger] entries@[j].0@ == okv[i + j].0 && entries@[j].1 == okv[i + j].1,
            out.kv().len() == i,
            forall|j: int| 0 <= j < i ==> #[trigger] out.kv()[j].0 == okv[j].0 && out.kv()[j].1 == migrated_legacy_revision(okv[j].1),
        decreases entries.len(),
    {
        let ghost before = entries@;
        let (k, v) = entries.remove(0);
        proof {
            assert(before[0].0@ == okv[i].0);
            assert forall|j: int| 0 <= j < entries@.len() implies #[trigger] entries@[j].0@ == okv[i + 1 + j].0 && entries@[j].1 == okv[i + 1 + j].1 by {
                assert(entries@[j] == before[j + 1]);
            }
            if i > 0 {
                assert(out.kv().last().0 == okv[i - 1].0);
                assert(seq_less(okv[i - 1].0, okv[i].0));
            }
        }
        let m = Revision {
            id: v.id,
            parents: v.parents,
            content_hash: v.content_hash,
            spec_hash: None,
            semantic_canonical_version: None,
            program: v.program,
            applied_transaction: v.applied_transaction,
            created_at_unix_ms: v.created_at_unix_ms,
            status: v.status,
        };
        out.push_ordered(k, m);
        proof {
            i = i + 1;
        }
    }
    out
}

/// Purely migrates legacy snapshot v1 to immutable snapshot schema v2:
/// every revision is kept, in key order, with no semantic identity cached.
pub fn migrate_snapshot_v1(snapshot: LegacyWorkspaceSnapshotV1) -> (r: AgentResult<LegacyWorkspaceSnapshotV2>)
    ensures
        snapshot.schema_version != LEGACY_WORKSPACE_SNAPSHOT_VERSION ==> (r matches Err(e) && e.code
            == ErrorCode::PersistenceFormat),
        snapshot.schema_version == LEGACY_WORKSPACE_SNAPSHOT_VERSION ==> (r matches Ok(s) && {
            &&& s.schema_version == LEGACY_WORKSPACE_SNAPSHOT_V2_VERSION
            &&& s.workspace == snapshot.workspace
            &&& s.head == snapshot.head
            &&& kv_related(
                snapshot.revisions.kv(),
                s.revisions.kv(),
                |a: LegacyRevisionV1, b: Revision| b == migrated_legacy_revision(a),
            )
            &&& s.allocator == snapshot.allocator
            &&& s.events == snapshot.events
        }),
{
    if snapshot.schema_version != LEGACY_WORKSPACE_SNAPSHOT_VERSION {
        return Err(format_error(snapshot.schema_version, LEGACY_WORKSPACE_SNAPSHOT_VERSION));
    }
    let revisions = migrate_legacy_revisions(snapshot.revisions);
    Ok(LegacyWorkspaceSnapshotV2 {
        schema_version: LEGACY_WORKSPACE_SNAPSHOT_V2_VERSION,
        workspace: snapshot.workspace,
        head: snapshot.head,
        revisions,
        allocator: snapshot.allocator,
        events: snapshot.events,
    })
}

/// Purely migrates snapshot schema v2 to immutable v3 by tagging every
/// legacy event with the first core semantics.
pub fn migrate_snapshot_v2(snapshot: LegacyWorkspaceSnapshotV2) -> (r: AgentResult<LegacyWorkspaceSnapshotV3>)
    ensures
        snapshot.schema_version != LEGACY_WORKSPACE_SNAPSHOT_V2_VERSION ==> (r matches Err(e) && e.code
            == ErrorCode::PersistenceFormat),
        snapshot.schema_version == LEGACY_WORKSPACE_SNAPSHOT_V2_VERSION ==> (r matches Ok(s) && {
            &&& s.schema_version == LEGACY_WORKSPACE_SNAPSHOT_V3_VERSION
            &&& s.workspace == snapshot.workspace
            &&& s.head == snapshot.head
            &&& s.revisions == snapshot.revisions
            &&& s.allocator == snapshot.allocator
            &&& s.events@.len() == snapshot.events@.len()
            &&& forall|i: int|
                0 <= i < s.events@.len() ==> (#[trigger] s.events@[i]).semantics_version
                    == LEGACY_CORE_SEMANTICS_VERSION && s.events@[i].event == snapshot.events@[i]
        }),
{
    if snapshot.schema_version != LEGACY_WORKSPACE_SNAPSHOT_V2_VERSION {
        return Err(format_error(snapshot.schema_version, LEGACY_WORKSPACE_SNAPSHOT_V2_VERSION));
    }
    let ghost old_events = snapshot.events@;
    let mut rest = snapshot.events;
    let mut events: Vec<VersionedWorkspaceEvent> = Vec::new();
    while rest.len() > 0
        invariant
            events.len() + rest.len() == old_events.len(),
            rest@ == old_events.skip(events.len() as int),
            forall|i: int|
                0 <= i < events.len() ==> (#[trigger] events@[i]).semantics_version == LEGACY_CORE_SEMANTICS_VERSION
                    && events@[i].event == old_events[i],
        decreases rest.len(),
    {
        let ghost before = rest@;
        let event = rest.remove(0);
        proof {
            assert(before[0] == old_events[events.len() as int]);
            assert(rest@ =~= old_events.skip(events.len() + 1));
        }
        events.push(VersionedWorkspaceEvent { semantics_version: LEGACY_CORE_SEMANTICS_VERSION, event });
    }
    Ok(LegacyWorkspaceSnapshotV3 {
        schema_version: LEGACY_WORKSPACE_SNAPSHOT_V3_VERSION,
        workspace: snapshot.workspace,
        head: snapshot.head,
        revisions: snapshot.revisions,
        allocator: snapshot.allocator,
        events,
    })
}

/// Purely migrates immutable snapshot schema v3 to v4 with an empty candidate forest.
pub fn migrate_snapshot_v3(snapshot: LegacyWorkspaceSnapshotV3) -> (r: AgentResult<LegacyWorkspaceSnapshotV4>)
    ensures
        snapshot.schema_version != LEGACY_WORKSPACE_SNAPSHOT_V3_VERSION ==> (r matches Err(e) && e.code
            == ErrorCode::PersistenceFormat),
        snapshot.schema_version == LEGACY_WORKSPACE_SNAPSHOT_V3_VERSION ==> (r matches Ok(s) && {
            &&& s.schema_version == LEGACY_WORKSPACE_SNAPSHOT_V4_VERSION
            &&& s.workspace == snapshot.workspace
            &&& s.head == snapshot.head
            &&& s.revisions == snapshot.revisions
            &&& s.allocator == snapshot.allocator
            &&& s.events == snapshot.events
            &&& s.candidate_forest.candidates@ == Map::<Seq<char>, LegacyCandidateV1>::empty()
            &&& s.candidate_forest.evidence@ == Map::<Seq<char>, LegacyEvidenceRecordV1>::empty()
            &&& s.candidate_forest.allocator == (LegacyCandidateAllocatorV1 {
                candidate: 0,
                revision: 0,
                operation: 0,
                value: 0,
                evidence: 0,
                obligation: 0,
            })
            &&& s.candidate_forest.events@.len() == 0
        }),
{
    if snapshot.schema_version != LEGACY_WORKSPACE_SNAPSHOT_V3_VERSION {
        return Err(format_error(snapshot.schema_version, LEGACY_WORKSPACE_SNAPSHOT_V3_VERSION));
    }
    Ok(LegacyWorkspaceSnapshotV4 {
        schema_version: LEGACY_WORKSPACE_SNAPSHOT_V4_VERSION,
        workspace: snapshot.workspace,
        head: snapshot.head,
        revisions: snapshot.revisions,
        allocator: snapshot.allocator,
        events: snapshot.events,
        candidate_forest: LegacyCandidateForestV1 {
            candidates: IdMap::new(),
            evidence: IdMap::new(),
            allocator: LegacyCandidateAllocatorV1 {
                candidate: 0,
                revision: 0,
                operation: 0,
                value: 0,
                evidence: 0,
                obligation: 0,
            },
            events: Vec::new(),
        },
    })
}

/// Purely migrates immutable snapshot schema v4 to v5: the SpecIR part is
/// kept and the candidate forest is carried to the current schema without
/// recalculating legacy hashes.
pub fn migrate_snapshot_v4(snapshot: LegacyWorkspaceSnapshotV4) -> (r: AgentResult<LegacyWorkspaceSnapshotV5>)
    ensures
        snapshot.schema_version != LEGACY_WORKSPACE_SNAPSHOT_V4_VERSION ==> (r matches Err(e) && e.code
            == ErrorCode::PersistenceFormat),
        snapshot.schema_version == LEGACY_WORKSPACE_SNAPSHOT_V4_VERSION ==> (r matches Ok(s) && {
            &&& s.schema_version == LEGACY_WORKSPACE_SNAPSHOT_V5_VERSION
            &&& s.workspace == snapshot.workspace
            &&& s.head == snapshot.head
            &&& s.revisions == snapshot.revisions
            &&& s.allocator == snapshot.allocator
            &&& s.events == snapshot.events
            &&& forest_migrated(snapshot.candidate_forest, s.candidate_forest)
        }),
{
    if snapshot.schema_version != LEGACY_WORKSPACE_SNAPSHOT_V4_VERSION {
        return Err(format_error(snapshot.schema_version, LEGACY_WORKSPACE_SNAPSHOT_V4_VERSION));
    }
    let candidate_forest = migrate_candidate_forest_v1(snapshot.candidate_forest);
    Ok(LegacyWorkspaceSnapshotV5 {
        schema_version: LEGACY_WORKSPACE_SNAPSHOT_V5_VERSION,
        workspace: snapshot.workspace,
        head: snapshot.head,
        revisions: snapshot.revisions,
        allocator: snapshot.allocator,
        events: snapshot.events,
        candidate_forest,
    })
}

/// Purely migrates immutable snapshot schema v5 to v6 with an empty equality store.
pub fn migrate_snapshot_v5(snapshot: LegacyWorkspaceSnapshotV5) -> (r: AgentResult<LegacyWorkspaceSnapshotV6>)
    ensures
        snapshot.schema_version != LEGACY_WORKSPACE_SNAPSHOT_V5_VERSION ==> (r matches Err(e) && e.code
            == ErrorCode::PersistenceFormat),
        snapshot.schema_version == LEGACY_WORKSPACE_SNAPSHOT_V5_VERSION ==> (r matches Ok(s) && {
            &&& s.schema_version == LEGACY_WORKSPACE_SNAPSHOT_V6_VERSION
            &&& s.workspace == snapshot.workspace
            &&& s.head == snapshot.head
            &&& s.revisions == snapshot.revisions
            &&& s.allocator == snapshot.allocator
            &&& s.events == snapshot.events
            &&& s.candidate_forest == snapshot.candidate_forest
            &&& s.equality_store.spaces@ == Map::<Seq<char>, EqualitySpace>::empty()
            &&& s.equality_store.events@.len() == 0
        }),
{
    if snapshot.schema_version != LEGACY_WORKSPACE_SNAPSHOT_V5_VERSION {
        return Err(format_error(snapshot.schema_version, LEGACY_WORKSPACE_SNAPSHOT_V5_VERSION));
    }
    Ok(LegacyWorkspaceSnapshotV6 {
        schema_version: LEGACY_WORKSPACE_SNAPSHOT_V6_VERSION,
        workspace: snapshot.workspace,
        head: snapshot.head,
        revisions: snapshot.revisions,
        allocator: snapshot.allocator,
        events: snapshot.events,
        candidate_forest: snapshot.candidate_forest,
        equality_store: EqualityStore::new(),
    })
}

/// Purely migrates immutable snapshot schema v6 to v7 with an empty MemoryIR store.
pub fn migrate_snapshot_v6(snapshot: LegacyWorkspaceSnapshotV6) -> (r: AgentResult<LegacyWorkspaceSnapshotV7>)
    ensures
        snapshot.schema_version != LEGACY_WORKSPACE_SNAPSHOT_V6_VERSION ==> (r matches Err(e) && e.code
            == ErrorCode::PersistenceFormat),
        snapshot.schema_version == LEGACY_WORKSPACE_SNAPSHOT_V6_VERSION ==> (r matches Ok(s) && {
            &&& s.schema_version == LEGACY_WORKSPACE_SNAPSHOT_V7_VERSION
            &&& s.workspace == snapshot.workspace
            &&& s.head == snapshot.head
            &&& s.revisions == snapshot.revisions
            &&& s.allocator == snapshot.allocator
            &&& s.events == snapshot.events
            &&& s.candidate_forest == snapshot.candidate_forest
            &&& s.equality_store == snapshot.equality_store
            &&& s.memory_store.plans@ == Map::<Seq<char>, MemoryPlan>::empty()
            &&& s.memory_store.events@.len() == 0
        }),
{
    if snapshot.schema_version != LEGACY_WORKSPACE_SNAPSHOT_V6_VERSION {
        return Err(format_error(snapshot.schema_version, LEGACY_WORKSPACE_SNAPSHOT_V6_VERSION));
    }
    Ok(LegacyWorkspaceSnapshotV7 {
        schema_version: LEGACY_WORKSPACE_SNAPSHOT_V7_VERSION,
        workspace: snapshot.workspace,
        head: snapshot.head,
        revisions: snapshot.revisions,
        allocator: snapshot.allocator,
        events: snapshot.events,
        candidate_forest: snapshot.candidate_forest,
        equality_store: snapshot.equality_store,
        memory_store: MemoryPlanStore::new(),
    })
}

/// Evidence that an event log reproduced an archived workspace.
#[derive(Debug)]
pub struct ReplayReport {
    /// Replayed workspace identity.
    pub workspace: WorkspaceId,
    /// Reproduced head revision.
    pub head: RevisionId,
    /// Number of verified revisions, including `r0`.
    pub revisions_verified: usize,
    /// Number of replayed state-changing events.
    pub events_replayed: usize,
    /// Number of revision content hashes independently recomputed.
    pub content_hashes_verified: usize,
    /// Number of frozen revision semantic hashes independently recomputed.
    pub spec_hashes_verified: usize,
    /// Number of independent candidate branches verified.
    pub candidates_verified: usize,
    /// Number of candidate events replayed with candidate semantics v1.
    pub candidate_events_replayed: usize,
    /// Number of evidence records verified through exact candidate state.
    pub evidence_records_verified: usize,
    /// Number of exact equality spaces independently replayed and verified.
    pub equality_spaces_verified: usize,
    /// Number of dependency-ordered Stage 2C events replayed.
    pub equality_events_replayed: usize,
    /// Number of independent MemoryIR plans verified.
    pub memory_plans_verified: usize,
    /// Number of dependency-ordered MemoryIR events replayed.
    pub memory_events_replayed: usize,
    /// Number of immutable target manifests verified.
    pub target_manifests_verified: usize,
    /// Number of target creation events replayed.
    pub target_events_replayed: usize,
    /// Number of independent ScheduleIR plans verified.
    pub schedule_plans_verified: usize,
    /// Number of dependency-ordered schedule events replayed.
    pub schedule_events_replayed: usize,
    /// Number of independent BackendIR plans verified.
    pub backend_plans_verified: usize,
    /// Number of dependency-ordered backend events verified.
    pub backend_events_replayed: usize,
    /// Number of deterministic artifact packages verified.
    pub artifacts_verified: usize,
    /// Number of artifact emission events verified.
    pub artifact_events_replayed: usize,
    /// Number of confidence-only hardware records structurally verified.
    pub measurements_verified: usize,
    /// Number of measurement events verified without hardware replay.
    pub measurement_events_replayed: usize,
    /// Number of deterministic portable CPU packages verified without execution.
    pub cpu_artifacts_verified: usize,
    /// Number of CPU artifact publication events replayed without execution.
    pub cpu_artifact_events_replayed: usize,
    /// Number of CPU timing observations structurally verified without execution or clock reads.
    pub cpu_measurements_verified: usize,
    /// Number of CPU measurement events replayed without execution or clock reads.
    pub cpu_measurement_events_replayed: usize,
}

} // verus!
