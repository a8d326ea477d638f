//! Candidate implementation branches: the trusted exact rewrite registry,
//! candidate identities and allocator, proof chains and evidence records.

use crate::diagnostics::{AgentError, AgentResult, ErrorCode};
use crate::idmap::IdMap;
use crate::ids::{
    CandidateId, CandidateObligationId, CandidateRevisionId, EvidenceId, ImplOperationId, ImplValueId, RevisionId,
};
use crate::impl_ir::{ImplHash, ImplProgram};
use crate::semantic::SpecHash;
use crate::text::{decimal, prefixed_decimal, str_eq};
use vstd::prelude::*;

verus! {

/// Candidate event semantics version, independent of core and archive versions.
pub const CANDIDATE_SEMANTICS_VERSION: u32 = 1;

/// Exact candidate-state canonical codec version.
pub const CANDIDATE_CANONICAL_VERSION: u32 = 1;

/// Immutable descriptor for one compiler-owned exact rewrite rule.
#[derive(Debug)]
pub struct KnownRewriteRule {
    /// Stable rule ID accepted by candidate transactions.
    pub id: String,
    /// Human-readable supported graph pattern.
    pub pattern: String,
    /// Exact side conditions discharged by the production matcher.
    pub side_conditions: Vec<String>,
}

/// Stable ID for unreachable implementation pruning.
pub open spec fn prune_unreachable_rule() -> Seq<char> {
    "prune_unreachable_impl_nodes"@
}

/// Stable ID for exact elimination of a type-identical cast.
pub open spec fn eliminate_noop_cast_rule() -> Seq<char> {
    "eliminate_noop_cast"@
}

/// Stable ID for exact folding of defined scalar constant operations.
pub open spec fn fold_scalar_constants_rule() -> Seq<char> {
    "fold_defined_scalar_constants"@
}

/// The registry entry of a known rule: its pattern and side conditions.
pub open spec fn known_rule(id: Seq<char>) -> Option<(Seq<char>, Seq<Seq<char>>)> {
    if id == eliminate_noop_cast_rule() {
        Some((
            "cast(source) with fully identical source, result, and target types"@,
            seq!["source_type == target_type"@],
        ))
    } else if id == fold_scalar_constants_rule() {
        Some((
            "defined scalar add/sub/mul/div/fma/compare/cast/select"@,
            seq!["all operands are exact scalar constants"@, "reference evaluation is defined"@],
        ))
    } else if id == prune_unreachable_rule() {
        Some((
            "ImplIR operations unreachable from parameters and outputs"@,
            seq!["target and removed nodes are output-unreachable"@],
        ))
    } else {
        None
    }
}

fn make_rule(id: &str, pattern: &str, conditions: &[&str]) -> (r: KnownRewriteRule)
    ensures
        r.id@ == id@,
        r.pattern@ == pattern@,
        r.side_conditions@.map_values(|s: String| s@) == conditions@.map_values(|s: &str| s@),
{
    let mut side_conditions: Vec<String> = Vec::new();
    let mut i: usize = 0;
    while i < conditions.len()
        invariant
            i <= conditions@.len(),
            side_conditions@.len() == i,
            side_conditions@.map_values(|s: String| s@) == conditions@.take(i as int).map_values(|s: &str| s@),
        decreases conditions.len() - i,
    {
        let ghost before = side_conditions@;
        let item = String::from_str(conditions[i]);
        assert(item@ == conditions@[i as int]@);
        side_conditions.push(item);
        proof {
            let a = side_conditions@.map_values(|s: String| s@);
            let b = conditions@.take(i + 1).map_values(|s: &str| s@);
            assert(a.len() == b.len());
            assert forall|j: int| 0 <= j < a.len() implies a[j] == b[j] by {
                if j < i {
                    assert(side_conditions@[j] == before[j]);
                    assert(before.map_values(|s: String| s@)[j] == conditions@.take(i as int).map_values(|s: &str| s@)[j]);
                }
            }
            assert(a =~= b);
        }
        i = i + 1;
    }
    assert(conditions@.take(conditions@.len() as int) =~= conditions@);
    KnownRewriteRule { id: String::from_str(id), pattern: String::from_str(pattern), side_conditions }
}

/// Looks up a compiler-owned exact rewrite descriptor by stable ID.
pub fn known_rewrite_rule(id: &str) -> (r: Option<KnownRewriteRule>)
    ensures
        match known_rule(id@) {
            Some((pattern, conditions)) => r matches Some(rule) && rule.id@ == id@ && rule.pattern@ == pattern
                && rule.side_conditions@.map_values(|s: String| s@) == conditions,
            None => r is None,
        },
{
    if str_eq(id, "eliminate_noop_cast") {
        let rule = make_rule(
            "eliminate_noop_cast",
            "cast(source) with fully identical source, result, and target types",
            &["source_type == target_type"],
        );
        assert(rule.side_conditions@.map_values(|s: String| s@) =~= seq!["source_type == target_type"@]);
        Some(rule)
    } else if str_eq(id, "fold_defined_scalar_constants") {
        let rule = make_rule(
            "fold_defined_scalar_constants",
            "defined scalar add/sub/mul/div/fma/compare/cast/select",
            &["all operands are exact scalar constants", "reference evaluation is defined"],
        );
        assert(rule.side_conditions@.map_values(|s: String| s@) =~= seq![
            "all operands are exact scalar constants"@,
            "reference evaluation is defined"@,
        ]);
        Some(rule)
    } else if str_eq(id, "prune_unreachable_impl_nodes") {
        let rule = make_rule(
            "prune_unreachable_impl_nodes",
            "ImplIR operations unreachable from parameters and outputs",
            &["target and removed nodes are output-unreachable"],
        );
        assert(rule.side_conditions@.map_values(|s: String| s@) =~= seq!["target and removed nodes are output-unreachable"@]);
        Some(rule)
    } else {
        None
    }
}

/// SHA-256 identity of one exact candidate revision and its history.
#[derive(Debug)]
pub struct CandidateHash(pub String);

impl CandidateHash {
    /// Creates a hash from a lowercase hexadecimal digest.
    pub fn new(value: String) -> (r: Self)
        ensures
            r.0@ == value@,
    {
        CandidateHash(value)
    }

    /// Returns the lowercase hexadecimal digest.
    pub fn as_str(&self) -> (r: &str)
        ensures
            r@ == self.0@,
    {
        self.0.as_str()
    }
}

/// Monotonic allocator isolated from the legacy SpecIR allocator contract.
#[derive(Clone, Debug, PartialEq, Eq, Structural)]
pub struct CandidateAllocator {
    candidate: u64,
    revision: u64,
    operation: u64,
    value: u64,
    evidence: u64,
    obligation: u64,
}

impl CandidateAllocator {
    /// The counter behind candidate IDs.
    pub closed spec fn spec_candidate(self) -> u64 {
        self.candidate
    }

    /// The counter behind candidate revision IDs.
    pub closed spec fn spec_revision(self) -> u64 {
        self.revision
    }

    /// The counter behind implementation operation IDs.
    pub closed spec fn spec_operation(self) -> u64 {
        self.operation
    }

    /// The counter behind implementation value IDs.
    pub closed spec fn spec_value(self) -> u64 {
        self.value
    }

    /// The counter behind evidence IDs.
    pub closed spec fn spec_evidence(self) -> u64 {
        self.evidence
    }

    /// The counter behind candidate obligation IDs.
    pub closed spec fn spec_obligation(self) -> u64 {
        self.obligation
    }

    /// Creates an allocator with every counter at zero.
    pub fn new() -> (r: Self)
        ensures
            r.spec_candidate() == 0 && r.spec_revision() == 0 && r.spec_operation() == 0,
            r.spec_value() == 0 && r.spec_evidence() == 0 && r.spec_obligation() == 0,
    {
        CandidateAllocator { candidate: 0, revision: 0, operation: 0, value: 0, evidence: 0, obligation: 0 }
    }

    /// Resumes an allocator from archived counters.
    pub fn from_legacy_counters(
        candidate: u64,
        revision: u64,
        operation: u64,
        value: u64,
        evidence: u64,
        obligation: u64,
    ) -> (r: Self)
        ensures
            r.spec_candidate() == candidate && r.spec_revision() == revision && r.spec_operation() == operation,
            r.spec_value() == value && r.spec_evidence() == evidence && r.spec_obligation() == obligation,
    {
        CandidateAllocator { candidate, revision, operation, value, evidence, obligation }
    }

    /// Allocates the next `CandidateId`: `c` followed by the incremented counter.
    pub fn candidate(&mut self) -> (r: CandidateId)
        requires
            old(self).spec_candidate() < u64::MAX,
        ensures
            final(self).spec_candidate() == old(self).spec_candidate() + 1,
            r@ == "c"@ + decimal(final(self).spec_candidate() as nat),
            final(self).spec_revision() == old(self).spec_revision() && final(self).spec_operation() == old(self).spec_operation(),
            final(self).spec_value() == old(self).spec_value() && final(self).spec_evidence() == old(self).spec_evidence(),
            final(self).spec_obligation() == old(self).spec_obligation(),
    {
        self.candidate = self.candidate + 1;
        prefixed_decimal("c", self.candidate)
    }

    /// Allocates the next `CandidateRevisionId`: `cr` followed by the incremented counter.
    pub fn revision(&mut self) -> (r: CandidateRevisionId)
        requires
            old(self).spec_revision() < u64::MAX,
        ensures
            final(self).spec_revision() == old(self).spec_revision() + 1,
            r@ == "cr"@ + decimal(final(self).spec_revision() as nat),
            final(self).spec_candidate() == old(self).spec_candidate() && final(self).spec_operation() == old(self).spec_operation(),
            final(self).spec_value() == old(self).spec_value() && final(self).spec_evidence() == old(self).spec_evidence(),
            final(self).spec_obligation() == old(self).spec_obligation(),
    {
        self.revision = self.revision + 1;
        prefixed_decimal("cr", self.revision)
    }

    /// Allocates the next `ImplOperationId`: `iop` followed by the incremented counter.
    pub fn impl_operation(&mut self) -> (r: ImplOperationId)
        requires
            old(self).spec_operation() < u64::MAX,
        ensures
            final(self).spec_operation() == old(self).spec_operation() + 1,
            r@ == "iop"@ + decimal(final(self).spec_operation() as nat),
            final(self).spec_candidate() == old(self).spec_candidate() && final(self).spec_revision() == old(self).spec_revision(),
            final(self).spec_value() == old(self).spec_value() && final(self).spec_evidence() == old(self).spec_evidence(),
            final(self).spec_obligation() == old(self).spec_obligation(),
    {
        self.operation = self.operation + 1;
        prefixed_decimal("iop", self.operation)
    }

    /// Allocates the next `ImplValueId`: `iv` followed by the incremented counter.
    pub fn impl_value(&mut self) -> (r: ImplValueId)
        requires
            old(self).spec_value() < u64::MAX,
        ensures
            final(self).spec_value() == old(self).spec_value() + 1,
            r@ == "iv"@ + decimal(final(self).spec_value() as nat),
            final(self).spec_candidate() == old(self).spec_candidate() && final(self).spec_revision() == old(self).spec_revision(),
            final(self).spec_operation() == old(self).spec_operation() && final(self).spec_evidence() == old(self).spec_evidence(),
            final(self).spec_obligation() == old(self).spec_obligation(),
    {
        self.value = self.value + 1;
        prefixed_decimal("iv", self.value)
    }

    /// Allocates the next `EvidenceId`: `ev` followed by the incremented counter.
    pub fn evidence(&mut self) -> (r: EvidenceId)
        requires
            old(self).spec_evidence() < u64::MAX,
        ensures
            final(self).spec_evidence() == old(self).spec_evidence() + 1,
            r@ == "ev"@ + decimal(final(self).spec_evidence() as nat),
            final(self).spec_candidate() == old(self).spec_candidate() && final(self).spec_revision() == old(self).spec_revision(),
            final(self).spec_operation() == old(self).spec_operation() && final(self).spec_value() == old(self).spec_value(),
            final(self).spec_obligation() == old(self).spec_obligation(),
    {
        self.evidence = self.evidence + 1;
        prefixed_decimal("ev", self.evidence)
    }

    /// Allocates the next `CandidateObligationId`: `co` followed by the incremented counter.
    pub fn obligation(&mut self) -> (r: CandidateObligationId)
        requires
            old(self).spec_obligation() < u64::MAX,
        ensures
            final(self).spec_obligation() == old(self).spec_obligation() + 1,
            r@ == "co"@ + decimal(final(self).spec_obligation() as nat),
            final(self).spec_candidate() == old(self).spec_candidate() && final(self).spec_revision() == old(self).spec_revision(),
            final(self).spec_operation() == old(self).spec_operation() && final(self).spec_value() == old(self).spec_value(),
            final(self).spec_evidence() == old(self).spec_evidence(),
    {
        self.obligation = self.obligation + 1;
        prefixed_decimal("co", self.obligation)
    }
}

impl Default for CandidateAllocator {
    fn default() -> (r: Self)
        ensures
            r.spec_candidate() == 0 && r.spec_revision() == 0 && r.spec_operation() == 0,
            r.spec_value() == 0 && r.spec_evidence() == 0 && r.spec_obligation() == 0,
    {
        CandidateAllocator::new()
    }
}

/// Stage 2A candidate lifecycle state.
#[derive(Clone, Copy, Debug, PartialEq, Eq, Structural)]
pub enum CandidateState {
    /// Editable branch state, including a newly forked sealed candidate.
    Draft,
    /// Separate implementation graph verified successfully.
    WellTyped,
    /// Trusted certificates prove exact equivalence to frozen SpecIR.
    Equivalent,
    /// Immutable accepted implementation revision.
    Sealed,
    /// Deterministic validation found a counterexample or integrity failure.
    Rejected,
}

/// Relation requested between a candidate and its immutable specification.
#[derive(Clone, Copy, Debug, PartialEq, Eq, Structural)]
pub enum RelationKind {
    /// Exact semantic equivalence supported by Stage 2A.
    EquivalentToSpec,
    /// Approximate refinement, reserved for a later stage.
    RefinesSpecWithinTolerance,
}

/// Proof state of the exact candidate relation.
#[derive(Clone, Copy, Debug, PartialEq, Eq, Structural)]
pub enum EquivalenceStatus {
    /// The trusted compositional certificate chain is incomplete.
    Open,
    /// The trusted compositional certificate chain verifies.
    Proved,
}

/// Structured exact relation owned by one candidate revision.
#[derive(Debug)]
pub struct EquivalenceObligation {
    /// Compiler-assigned obligation ID.
    pub id: CandidateObligationId,
    /// Only exact equivalence is accepted in Stage 2A.
    pub relation: RelationKind,
    /// Immutable frozen SpecIR semantic anchor.
    pub spec_hash: SpecHash,
    /// Candidate branch identity.
    pub candidate: CandidateId,
    /// Candidate revision whose graph is covered.
    pub candidate_revision: CandidateRevisionId,
    /// Current history-independent implementation hash.
    pub impl_hash: ImplHash,
    /// Proof state derived from trusted certificates.
    pub status: EquivalenceStatus,
}

/// Strength category kept separate from evidence method.
#[derive(Clone, Copy, Debug, PartialEq, Eq, Structural)]
pub enum EvidenceClass {
    /// Evidence capable of discharging correctness under Stage 2A trust rules.
    Correctness,
    /// Testing evidence that increases confidence but never proves equivalence.
    Confidence,
}

/// Minimal deterministic EvidenceIR method kinds.
#[derive(Clone, Copy, Debug, PartialEq, Eq, Structural)]
pub enum EvidenceKind {
    /// Compiler-owned structural identity lowering certificate.
    IdentityLowering,
    /// Certificate emitted by a trusted known rewrite.
    KnownRewriteCertificate,
    /// Verified composition of identity and rewrite certificates.
    CompositionalEquivalence,
    /// Fixed-seed differential execution.
    DifferentialTest,
    /// Fixed-seed bounded property oracle.
    PropertyTest,
}

/// Deterministic evidence result.
#[derive(Clone, Copy, Debug, PartialEq, Eq, Structural)]
pub enum EvidenceResult {
    /// Method completed and its stated condition held.
    Passed,
    /// Method produced a deterministic failure or counterexample.
    Failed,
}

/// Reproducible compiler-owned evidence provenance.
#[derive(Debug)]
pub struct EvidenceProvenance {
    /// Compiler package version.
    pub compiler_version: String,
    /// Candidate semantics that produced the record.
    pub candidate_semantics_version: u32,
    /// ImplIR semantics used by verification/evaluation.
    pub impl_semantics_version: u32,
}

/// Minimal deterministic correctness or confidence evidence record.
#[derive(Debug)]
pub struct EvidenceRecord {
    /// Compiler-assigned evidence ID.
    pub id: EvidenceId,
    /// Correctness or confidence classification.
    pub class: EvidenceClass,
    /// Reproducible evidence method.
    pub kind: EvidenceKind,
    /// Immutable SpecIR anchor.
    pub spec_hash: SpecHash,
    /// Candidate identity current when evidence was recorded.
    pub candidate: CandidateId,
    /// Candidate revision covered by the record.
    pub candidate_revision: CandidateRevisionId,
    /// Input implementation hash, absent for identity lowering.
    pub input_impl_hash: Option<ImplHash>,
    /// Output/current implementation hash.
    pub output_impl_hash: ImplHash,
    /// Stable method or rule ID.
    pub method: String,
    /// Canonically ordered parameters.
    pub parameters: IdMap<serde_json::Value>,
    /// Deterministic outcome.
    pub result: EvidenceResult,
    /// First deterministic counterexample, when one exists.
    pub counterexample: Option<serde_json::Value>,
    /// Compiler-owned provenance without wall-clock data.
    pub provenance: EvidenceProvenance,
}

/// Trusted edge in the compositional exact-equivalence proof chain.
#[derive(Debug)]
pub struct EquivalenceCertificate {
    /// Stable compiler-owned rule ID.
    pub rule: String,
    /// Prior implementation hash; identity lowering has no prior ImplIR.
    pub before_impl_hash: Option<ImplHash>,
    /// Result implementation hash.
    pub after_impl_hash: ImplHash,
    /// Deterministically ordered target implementation nodes.
    pub targets: Vec<ImplOperationId>,
    /// Explicit discharged side conditions.
    pub side_conditions: Vec<String>,
    /// ImplIR verifier semantics version.
    pub impl_semantics_version: u32,
    /// Correctness evidence backing this edge.
    pub evidence: EvidenceId,
}

/// One immutable exact candidate revision.
#[derive(Debug)]
pub struct CandidateRevision {
    /// Compiler-assigned candidate revision ID.
    pub id: CandidateRevisionId,
    /// Immutable parent candidate revisions.
    pub parents: Vec<CandidateRevisionId>,
    /// Full separate ImplIR snapshot.
    pub impl_program: ImplProgram,
    /// Reachable, history-independent implementation hash.
    pub impl_hash: ImplHash,
    /// Exact, history-sensitive candidate revision hash.
    pub candidate_hash: CandidateHash,
    /// Candidate lifecycle state at this revision.
    pub state: CandidateState,
    /// Exact equivalence obligation.
    pub equivalence: EquivalenceObligation,
    /// Ordered trusted proof chain.
    pub proof_chain: Vec<EquivalenceCertificate>,
    /// Ordered correctness and confidence evidence references.
    pub evidence: Vec<EvidenceId>,
}

/// Persistent candidate branch with its own immutable revision DAG.
#[derive(Debug)]
pub struct Candidate {
    /// Persistent branch identity.
    pub id: CandidateId,
    /// Frozen SpecIR revision used at creation.
    pub spec_revision: RevisionId,
    /// Immutable semantic anchor.
    pub spec_hash: SpecHash,
    /// Root candidate revision.
    pub root_revision: CandidateRevisionId,
    /// Current candidate head.
    pub head: CandidateRevisionId,
    /// Immutable candidate revisions.
    pub revisions: IdMap<CandidateRevision>,
    /// Parent branch provenance for a fork.
    pub parent_candidate: Option<CandidateId>,
    /// Parent candidate revision for a fork.
    pub forked_from_revision: Option<CandidateRevisionId>,
}

/// One exact compiler-owned candidate rewrite action.
#[derive(Debug)]
pub enum CandidateAction {
    /// Applies one registry rule to one deterministic target.
    ApplyKnownRewrite {
        /// Stable rule ID; unknown IDs are structured rewrite rejections.
        rule: String,
        /// Persistent implementation operation target.
        target: ImplOperationId,
        /// Optional stale-state precondition.
        expected_before_impl_hash: Option<ImplHash>,
    },
}

/// Atomic candidate transaction against an explicit candidate revision.
#[derive(Debug)]
pub struct CandidateTransaction {
    /// Candidate branch to edit.
    pub candidate: CandidateId,
    /// Explicit immutable base candidate revision.
    pub base_revision: CandidateRevisionId,
    /// Ordered compiler-known rewrite actions.
    pub actions: Vec<CandidateAction>,
}

/// Hard applicability classification for a known rewrite match.
#[derive(Clone, Copy, Debug, PartialEq, Eq, Structural)]
pub enum RewriteApplicability {
    /// All exact side conditions are proved.
    Applicable,
    /// The requested target does not match the rule.
    NotApplicable,
    /// A required condition is outside the exact Stage 2A checker.
    Unknown,
}

/// One compiler-generated deterministic rewrite continuation entry.
#[derive(Debug)]
pub struct CandidateContinuationEntry {
    /// Stable known rule ID.
    pub rule: String,
    /// Deterministic target operation.
    pub target: ImplOperationId,
    /// Exact side conditions required by the rule.
    pub side_conditions: Vec<String>,
    /// Hard applicability result.
    pub applicability: RewriteApplicability,
    /// Stable explanation code.
    pub reason_code: String,
}

/// Bounded deterministic rewrite continuation for one candidate revision.
#[derive(Debug)]
pub struct CandidateContinuation {
    /// Candidate branch.
    pub candidate: CandidateId,
    /// Candidate revision inspected.
    pub candidate_revision: CandidateRevisionId,
    /// Required stale-state precondition.
    pub expected_before_impl_hash: ImplHash,
    /// Stable rule/target ordered matches.
    pub matches: Vec<CandidateContinuationEntry>,
}

/// Deterministic outcome supplied by the reference differential validator.
#[derive(Debug)]
pub struct DifferentialValidation {
    /// Fixed generator seed.
    pub seed: u64,
    /// Requested bounded cases.
    pub requested_cases: u64,
    /// Cases actually evaluated before success or first failure.
    pub executed_cases: u64,
    /// Whether no counterexample was found.
    pub passed: bool,
    /// First deterministic counterexample.
    pub counterexample: Option<serde_json::Value>,
}

/// Candidate check result used by protocol and sealing.
#[derive(Debug)]
pub struct CandidateCheckReport {
    /// Candidate identity.
    pub candidate: CandidateId,
    /// Checked candidate revision.
    pub candidate_revision: CandidateRevisionId,
    /// Current lifecycle state.
    pub state: CandidateState,
    /// Whether separate ImplIR verification succeeded.
    pub well_typed: bool,
    /// Exact relation and status.
    pub equivalence: EquivalenceObligation,
    /// Current history-independent implementation hash.
    pub impl_hash: ImplHash,
    /// Current exact candidate hash.
    pub candidate_hash: CandidateHash,
    /// Open blocking candidate obligations.
    pub open_obligations: Vec<CandidateObligationId>,
    /// Ordered evidence counts by strength class.
    pub correctness_evidence: usize,
    /// Ordered confidence-evidence count.
    pub confidence_evidence: usize,
    /// Whether sealing is currently legal.
    pub sealable: bool,
}

/// Replayable candidate event payload.
#[derive(Debug)]
pub enum CandidateEvent {
    /// Identity candidate creation.
    Created {
        /// Expected candidate ID.
        candidate: CandidateId,
        /// Frozen SpecIR revision.
        spec_revision: RevisionId,
        /// Requested exact relation.
        relation: RelationKind,
        /// Expected root candidate revision.
        candidate_revision: CandidateRevisionId,
        /// Expected implementation hash.
        impl_hash: ImplHash,
        /// Expected exact candidate hash.
        candidate_hash: CandidateHash,
    },
    /// Atomic trusted rewrite transaction.
    TransactionApplied {
        /// Replayable transaction.
        transaction: CandidateTransaction,
        /// Expected child candidate revision.
        candidate_revision: CandidateRevisionId,
        /// Expected implementation hash.
        impl_hash: ImplHash,
        /// Expected exact candidate hash.
        candidate_hash: CandidateHash,
    },
    /// Candidate branch fork.
    Forked {
        /// Parent candidate.
        parent_candidate: CandidateId,
        /// Parent candidate revision.
        parent_revision: CandidateRevisionId,
        /// Expected child candidate.
        candidate: CandidateId,
        /// Expected child root revision.
        candidate_revision: CandidateRevisionId,
        /// Expected exact candidate hash.
        candidate_hash: CandidateHash,
    },
    /// Deterministic confidence validation evidence.
    Validated {
        /// Candidate branch.
        candidate: CandidateId,
        /// Explicit base candidate revision.
        base_revision: CandidateRevisionId,
        /// Expected child candidate revision.
        candidate_revision: CandidateRevisionId,
        /// Deterministic validation result.
        validation: DifferentialValidation,
        /// Expected exact candidate hash.
        candidate_hash: CandidateHash,
    },
    /// Immutable seal transition.
    Sealed {
        /// Candidate branch.
        candidate: CandidateId,
        /// Explicit base candidate revision.
        base_revision: CandidateRevisionId,
        /// Expected sealed candidate revision.
        candidate_revision: CandidateRevisionId,
        /// Expected exact candidate hash.
        candidate_hash: CandidateHash,
    },
}

/// Candidate event paired with independent candidate semantics.
#[derive(Debug)]
pub struct VersionedCandidateEvent {
    /// Candidate compiler/replay semantics version.
    pub semantics_version: u32,
    /// Replayable candidate event.
    pub event: CandidateEvent,
}

/// Persistent independent candidate forest and EvidenceIR store.
#[derive(Debug)]
pub struct CandidateForest {
    /// Candidate branches by compiler-assigned ID.
    pub candidates: IdMap<Candidate>,
    /// Evidence records by compiler-assigned ID.
    pub evidence: IdMap<EvidenceRecord>,
    /// Candidate/ImplIR/evidence allocator state.
    pub allocator: CandidateAllocator,
    /// Ordered candidate event log.
    pub events: Vec<VersionedCandidateEvent>,
}

} // verus!
