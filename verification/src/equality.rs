//! Bounded deterministic proof-carrying exact equality spaces over ImplIR.

use crate::candidate::CandidateHash;
use crate::diagnostics::{AgentError, AgentResult, ErrorCode};
use crate::idmap::IdMap;
use crate::ids::{
    CandidateId, CandidateObligationId, CandidateRevisionId, EqualityEdgeId, EqualityNodeId, EqualityRevisionId,
    EqualitySpaceId, EvidenceId, ProposalId, RevisionId,
};
use crate::impl_ir::{ImplHash, ImplProgram};
use crate::memory::sat_succ;
use crate::semantic::SpecHash;
use crate::text::{decimal, prefixed_decimal};
use vstd::prelude::*;

verus! {

/// Exact equality canonical codec version.
pub const EQUALITY_CANONICAL_VERSION: u32 = 1;
/// Equality event semantics version.
pub const EQUALITY_SEMANTICS_VERSION: u32 = 1;
/// Shared production rewrite registry/validator version.
pub const EQUALITY_VALIDATOR_VERSION: u32 = 1;
/// Canonical proof-path codec version.
pub const EQUALITY_PROOF_PATH_VERSION: u32 = 1;

/// SHA-256 identity of one canonical equality-space state.
#[derive(Debug)]
pub struct EqualityHash(pub String);

impl EqualityHash {
    /// Creates an equality hash from a lowercase hexadecimal digest.
    pub fn new(value: String) -> (r: Self)
        ensures
            r.0@ == value@,
    {
        EqualityHash(value)
    }

    /// Returns the lowercase hexadecimal digest.
    pub fn as_str(&self) -> (r: &str)
        ensures
            r@ == self.0@,
    {
        self.0.as_str()
    }
}

/// Equality-local monotonic allocator isolated from candidate allocation.
#[derive(Clone, Debug, PartialEq, Eq, Structural)]
pub struct EqualityAllocator {
    space: u64,
    revision: u64,
    node: u64,
    edge: u64,
}

impl EqualityAllocator {
    /// The space counter.
    pub closed spec fn spec_space(self) -> u64 {
        self.space
    }

    /// The revision counter.
    pub closed spec fn spec_revision(self) -> u64 {
        self.revision
    }

    /// The node counter.
    pub closed spec fn spec_node(self) -> u64 {
        self.node
    }

    /// The edge counter.
    pub closed spec fn spec_edge(self) -> u64 {
        self.edge
    }

    /// Creates an allocator with every counter at zero.
    pub fn new() -> (r: Self)
        ensures
            r.spec_space() == 0 && r.spec_revision() == 0 && r.spec_node() == 0 && r.spec_edge() == 0,
    {
        EqualityAllocator { space: 0, revision: 0, node: 0, edge: 0 }
    }

    /// Allocates the next space identity: `eqs` and the saturated incremented counter.
    pub fn space(&mut self) -> (r: EqualitySpaceId)
        ensures
            final(self).spec_space() == sat_succ(old(self).spec_space()),
            final(self).spec_revision() == old(self).spec_revision(),
            final(self).spec_node() == old(self).spec_node() && final(self).spec_edge() == old(self).spec_edge(),
            r@ == "eqs"@ + decimal(final(self).spec_space() as nat),
    {
        self.space = self.space.saturating_add(1);
        prefixed_decimal("eqs", self.space)
    }

    /// Allocates the next revision identity: `er` and the saturated incremented counter.
    pub fn revision(&mut self) -> (r: EqualityRevisionId)
        ensures
            final(self).spec_revision() == sat_succ(old(self).spec_revision()),
            final(self).spec_space() == old(self).spec_space(),
            final(self).spec_node() == old(self).spec_node() && final(self).spec_edge() == old(self).spec_edge(),
            r@ == "er"@ + decimal(final(self).spec_revision() as nat),
    {
        self.revision = self.revision.saturating_add(1);
        prefixed_decimal("er", self.revision)
    }

    /// Allocates the next node identity: `en` and the saturated incremented counter.
    pub fn node(&mut self) -> (r: EqualityNodeId)
        ensures
            final(self).spec_node() == sat_succ(old(self).spec_node()),
            final(self).spec_space() == old(self).spec_space(),
            final(self).spec_revision() == old(self).spec_revision() && final(self).spec_edge() == old(self).spec_edge(),
            r@ == "en"@ + decimal(final(self).spec_node() as nat),
    {
        self.node = self.node.saturating_add(1);
        prefixed_decimal("en", self.node)
    }

    /// Allocates the next edge identity: `ee` and the saturated incremented counter.
    pub fn edge(&mut self) -> (r: EqualityEdgeId)
        ensures
            final(self).spec_edge() == sat_succ(old(self).spec_edge()),
            final(self).spec_space() == old(self).spec_space(),
            final(self).spec_revision() == old(self).spec_revision() && final(self).spec_node() == old(self).spec_node(),
            r@ == "ee"@ + decimal(final(self).spec_edge() as nat),
    {
        self.edge = self.edge.saturating_add(1);
        prefixed_decimal("ee", self.edge)
    }
}

impl Default for EqualityAllocator {
    fn default() -> (r: Self)
        ensures
            r.spec_space() == 0 && r.spec_revision() == 0 && r.spec_node() == 0 && r.spec_edge() == 0,
    {
        EqualityAllocator::new()
    }
}

/// Immutable exact candidate anchor for one equality space.
#[derive(Debug)]
pub struct EqualityAnchor {
    /// Frozen SpecIR revision.
    pub spec_revision: RevisionId,
    /// Fully proved exact candidate branch.
    pub candidate: CandidateId,
    /// Explicit immutable candidate revision.
    pub candidate_revision: CandidateRevisionId,
    /// Candidate exact-state hash at creation.
    pub candidate_hash: CandidateHash,
    /// Root semantic implementation hash.
    pub root_impl_hash: ImplHash,
}

/// One fully verified whole-program equality member.
#[derive(Debug)]
pub struct EqualityNode {
    /// Equality-local compiler-assigned node ID.
    pub id: EqualityNodeId,
    /// Fully verified typed implementation snapshot.
    pub impl_program: ImplProgram,
    /// Semantic hash used for hash-consing.
    pub impl_hash: ImplHash,
}

/// Stable proof identity independent of equality-local edge IDs.
#[derive(Debug)]
pub struct EqualityProofDescriptor {
    /// Semantic implementation before the rewrite.
    pub before_impl_hash: ImplHash,
    /// Semantic implementation after the rewrite.
    pub after_impl_hash: ImplHash,
    /// Stable compiler-owned production rule ID.
    pub rule: String,
    /// Structural operation locator in the source program, carried in its JSON form.
    pub target: serde_json::Value,
    /// Exact production side conditions.
    pub side_conditions: Vec<String>,
    /// ImplIR semantics contract.
    pub impl_semantics_version: u32,
    /// Equality event semantics contract.
    pub equality_semantics_version: u32,
    /// Production registry/validator contract.
    pub validator_version: u32,
}

/// One compiler-owned trusted equality proof edge.
#[derive(Debug)]
pub struct EqualityProofEdge {
    /// Equality-local edge ID.
    pub id: EqualityEdgeId,
    /// Source semantic node.
    pub source: EqualityNodeId,
    /// Target semantic node.
    pub target: EqualityNodeId,
    /// Stable proof descriptor.
    pub descriptor: EqualityProofDescriptor,
    /// Domain-separated digest of the descriptor.
    pub proof_digest: String,
}

/// Deterministic pending expansion unit.
#[derive(Debug)]
pub struct EqualityWorkItem {
    /// Equality node whose complete production match set remains to be expanded.
    pub node: EqualityNodeId,
}

/// Bounded equality expansion state. No status represents refutation.
#[derive(Clone, Copy, Debug, PartialEq, Eq, Structural)]
pub enum EqualityStatus {
    /// Newly created space with pending canonical work.
    Open,
    /// Current registry produced no remaining new work.
    FixedPoint,
    /// Explicit caller fuel ended while deterministic work remains.
    FuelExhausted,
}

/// Trusted equality membership used by candidate hash v3.
#[derive(Debug)]
pub struct EqualityMembershipProof {
    /// Equality space proving membership.
    pub equality_space: EqualitySpaceId,
    /// Immutable equality revision used by the check.
    pub equality_revision: EqualityRevisionId,
    /// Exact equality state hash.
    pub equality_hash: EqualityHash,
    /// Root semantic implementation hash.
    pub root_impl_hash: ImplHash,
    /// Selected member semantic implementation hash.
    pub target_impl_hash: ImplHash,
    /// Canonical trusted path digest.
    pub path_digest: String,
    /// Ordered trusted edge IDs retained for audit and replay.
    pub edges: Vec<EqualityEdgeId>,
    /// Candidate obligation discharged by this proof.
    pub obligation: CandidateObligationId,
    /// Proposal attached to the obligation.
    pub proposal: ProposalId,
    /// Correctness EvidenceIR record.
    pub evidence: EvidenceId,
}

/// Provenance for explicit equality-node materialization.
#[derive(Debug)]
pub struct EqualityMaterializationRecord {
    /// Equality space containing the selected node.
    pub equality_space: EqualitySpaceId,
    /// Immutable equality revision used for selection.
    pub equality_revision: EqualityRevisionId,
    /// Exact equality state hash.
    pub equality_hash: EqualityHash,
    /// Selected semantic node.
    pub target_node: EqualityNodeId,
    /// Canonical trusted path digest.
    pub path_digest: String,
    /// Anchor candidate revision from which the fork was built.
    pub anchor_candidate: CandidateId,
    /// Anchor candidate revision.
    pub anchor_candidate_revision: CandidateRevisionId,
    /// Newly materialized candidate branch.
    pub materialized_candidate: CandidateId,
    /// Terminal exact materialized revision.
    pub materialized_revision: CandidateRevisionId,
}

/// One immutable equality revision snapshot.
#[derive(Debug)]
pub struct EqualityRevision {
    /// Equality revision ID.
    pub id: EqualityRevisionId,
    /// Immutable parent equality revisions.
    pub parents: Vec<EqualityRevisionId>,
    /// Hash-consed semantic nodes.
    pub nodes: IdMap<EqualityNode>,
    /// Trusted proof edges, including alternative paths.
    pub edges: IdMap<EqualityProofEdge>,
    /// Canonically ordered pending node worklist.
    pub worklist: Vec<EqualityWorkItem>,
    /// Bounded expansion status.
    pub status: EqualityStatus,
    /// Exact state hash independent of revision history and resource policy.
    pub equality_hash: EqualityHash,
    /// Candidate proof-debt discharges linked to this state.
    pub membership_proofs: Vec<EqualityMembershipProof>,
    /// Explicit candidate materializations linked to this state.
    pub materializations: Vec<EqualityMaterializationRecord>,
}

/// Persistent exact equality space anchored to one frozen specification.
#[derive(Debug)]
pub struct EqualitySpace {
    /// Compiler-assigned space ID.
    pub id: EqualitySpaceId,
    /// Immutable exact candidate anchor.
    pub anchor: EqualityAnchor,
    /// Immutable frozen SpecIR semantic hash.
    pub spec_hash: SpecHash,
    /// Root equality node.
    pub root_node: EqualityNodeId,
    /// Current immutable equality revision.
    pub head: EqualityRevisionId,
    /// Immutable equality revision DAG.
    pub revisions: IdMap<EqualityRevision>,
    /// Per-space revision/node/edge allocator.
    pub allocator: EqualityAllocator,
}

/// Summary returned by bounded expansion and saturation.
#[derive(Debug)]
pub struct EqualityExpansionResult {
    /// Equality space expanded.
    pub equality_space: EqualitySpaceId,
    /// Newly published immutable revision.
    pub equality_revision: EqualityRevisionId,
    /// Exact resulting state hash.
    pub equality_hash: EqualityHash,
    /// Resulting bounded status.
    pub status: EqualityStatus,
    /// Work items consumed by this request.
    pub work_items_processed: u64,
    /// Newly allocated semantic nodes.
    pub new_nodes: u64,
    /// Matches merged into existing semantic nodes.
    pub merged_nodes: u64,
    /// Newly allocated trusted edges.
    pub new_edges: u64,
    /// Total semantic node count.
    pub node_count: usize,
    /// Total trusted edge count.
    pub edge_count: usize,
    /// Remaining deterministic work items.
    pub remaining_work: usize,
}

/// Deterministic trusted explanation from the equality root to one member.
#[derive(Debug)]
pub struct EqualityExplanation {
    /// Root equality node.
    pub root: EqualityNodeId,
    /// Selected target node.
    pub target: EqualityNodeId,
    /// Root semantic implementation hash.
    pub root_impl_hash: ImplHash,
    /// Target semantic implementation hash.
    pub target_impl_hash: ImplHash,
    /// Canonical shortest, lexicographically tied proof edges.
    pub edges: Vec<EqualityProofEdge>,
    /// Domain-separated canonical path digest.
    pub proof_digest: String,
    /// Proof-path codec version.
    pub proof_path_version: u32,
    /// Registry/validator version used by every edge.
    pub validator_version: u32,
}

/// Read-only equality state summary.
#[derive(Debug)]
pub struct EqualityQuery {
    /// Equality space.
    pub equality_space: EqualitySpaceId,
    /// Selected equality revision.
    pub equality_revision: EqualityRevisionId,
    /// Exact equality hash.
    pub equality_hash: EqualityHash,
    /// Immutable specification anchor.
    pub spec_hash: SpecHash,
    /// Root semantic implementation hash.
    pub root_impl_hash: ImplHash,
    /// Current status.
    pub status: EqualityStatus,
    /// Semantic node count.
    pub node_count: usize,
    /// Trusted edge count.
    pub edge_count: usize,
    /// Pending work item count.
    pub remaining_work: usize,
}

/// One deterministic applicable production match returned without mutation.
#[derive(Debug)]
pub struct EqualityContinuationMatch {
    /// Expandable source node.
    pub source_node: EqualityNodeId,
    /// Production match descriptor, carried in its JSON form.
    pub production: serde_json::Value,
    /// Required current implementation hash.
    pub expected_before_impl_hash: ImplHash,
}

/// Bounded deterministic equality continuation.
#[derive(Debug)]
pub struct EqualityContinuation {
    /// Equality space.
    pub equality_space: EqualitySpaceId,
    /// Equality revision inspected.
    pub equality_revision: EqualityRevisionId,
    /// Required exact state hash.
    pub expected_equality_hash: EqualityHash,
    /// Pending nodes in canonical worklist order.
    pub expandable_nodes: Vec<EqualityNodeId>,
    /// Applicable compiler-owned matches for the next node only.
    pub matches: Vec<EqualityContinuationMatch>,
    /// Maximum caller fuel accepted by interactive policy.
    pub saturation_fuel_limit: u64,
}

/// Replayable Stage 2C optimization event in exact dependency order.
#[derive(Debug)]
pub enum EqualityEvent {
    /// Equality space creation from an exact candidate revision.
    Created {
        /// Candidate anchor.
        candidate: CandidateId,
        /// Explicit candidate revision.
        candidate_revision: CandidateRevisionId,
        /// Expected new space.
        equality_space: EqualitySpaceId,
        /// Expected root revision.
        equality_revision: EqualityRevisionId,
        /// Expected exact state hash.
        equality_hash: EqualityHash,
    },
    /// Bounded expansion of canonical work items.
    Expanded {
        /// Equality space.
        equality_space: EqualitySpaceId,
        /// Explicit equality base.
        base_revision: EqualityRevisionId,
        /// Expected base hash.
        expected_equality_hash: EqualityHash,
        /// Explicit caller fuel.
        fuel: u64,
        /// Expected new revision.
        equality_revision: EqualityRevisionId,
        /// Expected new hash.
        equality_hash: EqualityHash,
    },
    /// Saturation using explicit bounded caller fuel.
    Saturated {
        /// Equality space.
        equality_space: EqualitySpaceId,
        /// Explicit equality base.
        base_revision: EqualityRevisionId,
        /// Expected base hash.
        expected_equality_hash: EqualityHash,
        /// Explicit caller fuel.
        fuel: u64,
        /// Expected new revision.
        equality_revision: EqualityRevisionId,
        /// Expected new hash.
        equality_hash: EqualityHash,
    },
    /// Equality-backed candidate debt discharge.
    CandidateDischarged {
        /// Candidate branch.
        candidate: CandidateId,
        /// Explicit candidate base.
        base_candidate_revision: CandidateRevisionId,
        /// Proposal/obligation selected by reference only.
        proposal: ProposalId,
        /// Equality space.
        equality_space: EqualitySpaceId,
        /// Immutable equality revision.
        equality_revision: EqualityRevisionId,
        /// Expected equality hash.
        equality_hash: EqualityHash,
        /// Selected target node.
        target_node: EqualityNodeId,
        /// Expected child candidate revision.
        candidate_revision: CandidateRevisionId,
        /// Expected candidate hash v3.
        candidate_hash: CandidateHash,
    },
    /// Explicit selected-node materialization into a new candidate fork.
    Materialized {
        /// Equality space.
        equality_space: EqualitySpaceId,
        /// Immutable equality revision.
        equality_revision: EqualityRevisionId,
        /// Expected equality hash.
        equality_hash: EqualityHash,
        /// Explicit selected node.
        target_node: EqualityNodeId,
        /// Expected new candidate.
        candidate: CandidateId,
        /// Expected terminal candidate revision.
        candidate_revision: CandidateRevisionId,
        /// Expected candidate hash v3.
        candidate_hash: CandidateHash,
    },
}

/// Equality event paired with its independent semantics version.
#[derive(Debug)]
pub struct VersionedEqualityEvent {
    /// Equality event compiler/replay semantics.
    pub semantics_version: u32,
    /// Number of ordinary candidate events that must replay before this event.
    pub candidate_event_cursor: u64,
    /// Replayable Stage 2C operation.
    pub event: EqualityEvent,
}

/// Persistent workspace equality store and ordered Stage 2C dependency stream.
#[derive(Debug)]
pub struct EqualityStore {
    /// Exact equality spaces by compiler-assigned ID.
    pub spaces: IdMap<EqualitySpace>,
    /// Workspace-level equality-space allocator.
    pub allocator: EqualityAllocator,
    /// Ordered interleaved equality/candidate Stage 2C events.
    pub events: Vec<VersionedEqualityEvent>,
}

impl EqualityStore {
    /// Creates an empty store.
    pub fn new() -> (r: Self)
        ensures
            r.spaces@ == Map::<Seq<char>, EqualitySpace>::empty(),
            r.allocator.spec_space() == 0 && r.allocator.spec_revision() == 0,
            r.allocator.spec_node() == 0 && r.allocator.spec_edge() == 0,
            r.events@.len() == 0,
    {
        EqualityStore { spaces: IdMap::new(), allocator: EqualityAllocator::new(), events: Vec::new() }
    }

    /// Returns one persistent equality space.
    pub fn space(&self, id: &str) -> (r: AgentResult<&EqualitySpace>)
        ensures
            match r {
                Ok(s) => self.spaces@.contains_key(id@) && *s == self.spaces@[id@],
                Err(e) => !self.spaces@.contains_key(id@) && e.code == ErrorCode::EqualitySpaceNotFound,
            },
    {
        match self.spaces.get(id) {
            Some(s) => Ok(s),
            None => Err(AgentError::new(ErrorCode::EqualitySpaceNotFound, "equality space does not exist")),
        }
    }

    /// Returns one immutable equality revision.
    pub fn revision(&self, space: &str, revision: &str) -> (r: AgentResult<&EqualityRevision>)
        ensures
            !self.spaces@.contains_key(space@) ==> (r matches Err(e) && e.code == ErrorCode::EqualitySpaceNotFound),
            self.spaces@.contains_key(space@) ==> match r {
                Ok(x) => self.spaces@[space@].revisions@.contains_key(revision@) && *x
                    == self.spaces@[space@].revisions@[revision@],
                Err(e) => !self.spaces@[space@].revisions@.contains_key(revision@) && e.code
                    == ErrorCode::EqualityRevisionNotFound,
            },
    {
        let s = self.space(space)?;
        match s.revisions.get(revision) {
            Some(x) => Ok(x),
            None => Err(AgentError::new(ErrorCode::EqualityRevisionNotFound, "equality revision does not exist")),
        }
    }

    /// Returns the implementation of one member of an equality revision.
    pub fn node_program(&self, space: &str, revision: &str, node: &str) -> (r: AgentResult<&ImplProgram>)
        ensures
            !self.spaces@.contains_key(space@) ==> (r matches Err(e) && e.code == ErrorCode::EqualitySpaceNotFound),
            self.spaces@.contains_key(space@) && !self.spaces@[space@].revisions@.contains_key(revision@) ==> (r matches Err(
                e,
            ) && e.code == ErrorCode::EqualityRevisionNotFound),
            self.spaces@.contains_key(space@) && self.spaces@[space@].revisions@.contains_key(revision@) ==> {
                let rev = self.spaces@[space@].revisions@[revision@];
                match r {
                    Ok(x) => rev.nodes@.contains_key(node@) && *x == rev.nodes@[node@].impl_program,
                    Err(e) => !rev.nodes@.contains_key(node@) && e.code == ErrorCode::EqualityNodeNotFound,
                }
            },
    {
        let rev = self.revision(space, revision)?;
        match rev.nodes.get(node) {
            Some(n) => Ok(&n.impl_program),
            None => Err(AgentError::new(ErrorCode::EqualityNodeNotFound, "equality node does not exist")),
        }
    }
}

/// Whether `q` summarises revision `rev` (identity `rev_id`) of space
/// `space` (identity `space_id`).
pub open spec fn equality_query_matches(
    q: EqualityQuery,
    space_id: Seq<char>,
    rev_id: Seq<char>,
    space: EqualitySpace,
    rev: EqualityRevision,
) -> bool {
    &&& q.equality_space@ == space_id
    &&& q.equality_revision@ == rev_id
    &&& q.equality_hash.0@ == rev.equality_hash.0@
    &&& q.spec_hash.0@ == space.spec_hash.0@
    &&& q.root_impl_hash.0@ == space.anchor.root_impl_hash.0@
    &&& q.status == rev.status
    &&& q.node_count == rev.nodes.spec_len()
    &&& q.edge_count == rev.edges.spec_len()
    &&& q.remaining_work == rev.worklist@.len()
}

impl EqualityStore {
    /// Reads one equality revision summary.
    pub fn query(&self, space: &str, revision: &str) -> (r: AgentResult<EqualityQuery>)
        ensures
            !self.spaces@.contains_key(space@) ==> (r matches Err(e) && e.code == ErrorCode::EqualitySpaceNotFound),
            self.spaces@.contains_key(space@) ==> match r {
                Ok(q) => self.spaces@[space@].revisions@.contains_key(revision@) && equality_query_matches(
                    q,
                    space@,
                    revision@,
                    self.spaces@[space@],
                    self.spaces@[space@].revisions@[revision@],
                ),
                Err(e) => !self.spaces@[space@].revisions@.contains_key(revision@) && e.code
                    == ErrorCode::EqualityRevisionNotFound,
            },
    {
        let s = self.space(space)?;
        let x = self.revision(space, revision)?;
        Ok(EqualityQuery {
            equality_space: space.to_string(),
            equality_revision: revision.to_string(),
            equality_hash: EqualityHash(x.equality_hash.0.clone()),
            spec_hash: SpecHash(s.spec_hash.0.clone()),
            root_impl_hash: ImplHash(s.anchor.root_impl_hash.0.clone()),
            status: x.status,
            node_count: x.nodes.len(),
            edge_count: x.edges.len(),
            remaining_work: x.worklist.len(),
        })
    }
}

/// Atomic result of equality-backed proof-debt discharge.
#[derive(Debug)]
pub struct EqualityDischargeResult {
    /// New candidate revision containing candidate hash v3 proof linkage.
    pub candidate_revision: CandidateRevisionId,
    /// Exact candidate hash v3.
    pub candidate_hash: CandidateHash,
    /// Trusted equality membership proof recorded by the core.
    pub membership: EqualityMembershipProof,
}

/// Atomic result of selected equality-node materialization.
#[derive(Debug)]
pub struct EqualityMaterializationResult {
    /// Newly forked candidate branch.
    pub candidate: CandidateId,
    /// Terminal exact candidate revision.
    pub candidate_revision: CandidateRevisionId,
    /// Exact candidate hash v3.
    pub candidate_hash: CandidateHash,
    /// Explicit materialization provenance.
    pub materialization: EqualityMaterializationRecord,
}
} // verus!
