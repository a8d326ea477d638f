//! Persistent compiler-assigned identifiers and their allocators.

use crate::text::{decimal, digit_char, prefixed_decimal};
use vstd::prelude::*;

verus! {

/// A persistent compiler-assigned `WorkspaceId`, kept in its canonical string form.
pub type WorkspaceId = String;

/// A persistent compiler-assigned `RevisionId`, kept in its canonical string form.
pub type RevisionId = String;

/// A persistent compiler-assigned `TransactionId`, kept in its canonical string form.
pub type TransactionId = String;

/// A persistent compiler-assigned `ActionId`, kept in its canonical string form.
pub type ActionId = String;

/// A persistent compiler-assigned `OperationId`, kept in its canonical string form.
pub type OperationId = String;

/// A persistent compiler-assigned `ValueId`, kept in its canonical string form.
pub type ValueId = String;

/// A persistent compiler-assigned `DimensionId`, kept in its canonical string form.
pub type DimensionId = String;

/// A persistent compiler-assigned `HoleId`, kept in its canonical string form.
pub type HoleId = String;

/// A persistent compiler-assigned `ObligationId`, kept in its canonical string form.
pub type ObligationId = String;

/// A persistent compiler-assigned `ContinuationFrameId`, kept in its canonical string form.
pub type ContinuationFrameId = String;

/// A persistent compiler-assigned `CandidateId`, kept in its canonical string form.
pub type CandidateId = String;

/// A persistent compiler-assigned `CandidateRevisionId`, kept in its canonical string form.
pub type CandidateRevisionId = String;

/// A persistent compiler-assigned `ImplOperationId`, kept in its canonical string form.
pub type ImplOperationId = String;

/// A persistent compiler-assigned `ImplValueId`, kept in its canonical string form.
pub type ImplValueId = String;

/// A persistent compiler-assigned `EvidenceId`, kept in its canonical string form.
pub type EvidenceId = String;

/// A persistent compiler-assigned `CandidateObligationId`, kept in its canonical string form.
pub type CandidateObligationId = String;

/// A persistent compiler-assigned `ProposalId`, kept in its canonical string form.
pub type ProposalId = String;

/// A persistent compiler-assigned `EqualitySpaceId`, kept in its canonical string form.
pub type EqualitySpaceId = String;

/// A persistent compiler-assigned `EqualityRevisionId`, kept in its canonical string form.
pub type EqualityRevisionId = String;

/// A persistent compiler-assigned `EqualityNodeId`, kept in its canonical string form.
pub type EqualityNodeId = String;

/// A persistent compiler-assigned `EqualityEdgeId`, kept in its canonical string form.
pub type EqualityEdgeId = String;

/// A persistent compiler-assigned `MemoryPlanId`, kept in its canonical string form.
pub type MemoryPlanId = String;

/// A persistent compiler-assigned `MemoryRevisionId`, kept in its canonical string form.
pub type MemoryRevisionId = String;

/// A persistent compiler-assigned `BufferId`, kept in its canonical string form.
pub type BufferId = String;

/// A persistent compiler-assigned `MemoryOperationId`, kept in its canonical string form.
pub type MemoryOperationId = String;

/// A persistent compiler-assigned `AliasDomainId`, kept in its canonical string form.
pub type AliasDomainId = String;

/// A persistent compiler-assigned `MemoryObligationId`, kept in its canonical string form.
pub type MemoryObligationId = String;

/// A persistent compiler-assigned `MemoryEvidenceId`, kept in its canonical string form.
pub type MemoryEvidenceId = String;

/// A persistent compiler-assigned `MemoryGuardId`, kept in its canonical string form.
pub type MemoryGuardId = String;

/// A persistent compiler-assigned `TargetManifestId`, kept in its canonical string form.
pub type TargetManifestId = String;

/// A persistent compiler-assigned `TargetManifestRevisionId`, kept in its canonical string form.
pub type TargetManifestRevisionId = String;

/// A persistent compiler-assigned `TargetCapabilityId`, kept in its canonical string form.
pub type TargetCapabilityId = String;

/// A persistent compiler-assigned `SchedulePlanId`, kept in its canonical string form.
pub type SchedulePlanId = String;

/// A persistent compiler-assigned `ScheduleRevisionId`, kept in its canonical string form.
pub type ScheduleRevisionId = String;

/// A persistent compiler-assigned `ScheduleNodeId`, kept in its canonical string form.
pub type ScheduleNodeId = String;

/// A persistent compiler-assigned `ScheduleAxisId`, kept in its canonical string form.
pub type ScheduleAxisId = String;

/// A persistent compiler-assigned `ScheduleOperationId`, kept in its canonical string form.
pub type ScheduleOperationId = String;

/// A persistent compiler-assigned `ScheduleObligationId`, kept in its canonical string form.
pub type ScheduleObligationId = String;

/// A persistent compiler-assigned `ScheduleEvidenceId`, kept in its canonical string form.
pub type ScheduleEvidenceId = String;

/// A persistent compiler-assigned `BackendPlanId`, kept in its canonical string form.
pub type BackendPlanId = String;

/// A persistent compiler-assigned `BackendRevisionId`, kept in its canonical string form.
pub type BackendRevisionId = String;

/// A persistent compiler-assigned `BackendKernelId`, kept in its canonical string form.
pub type BackendKernelId = String;

/// A persistent compiler-assigned `BackendValueId`, kept in its canonical string form.
pub type BackendValueId = String;

/// A persistent compiler-assigned `BackendObligationId`, kept in its canonical string form.
pub type BackendObligationId = String;

/// A persistent compiler-assigned `BackendEvidenceId`, kept in its canonical string form.
pub type BackendEvidenceId = String;

/// A persistent compiler-assigned `ArtifactId`, kept in its canonical string form.
pub type ArtifactId = String;

/// A persistent compiler-assigned `ArtifactModuleId`, kept in its canonical string form.
pub type ArtifactModuleId = String;

/// A persistent compiler-assigned `MeasurementId`, kept in its canonical string form.
pub type MeasurementId = String;

/// A persistent compiler-assigned `CpuArtifactId`, kept in its canonical string form.
pub type CpuArtifactId = String;

/// A persistent compiler-assigned `CpuMeasurementId`, kept in its canonical string form.
pub type CpuMeasurementId = String;

/// Monotonic identifier allocator owned by one workspace.
#[derive(Clone, Debug, PartialEq, Eq, Structural)]
pub struct IdAllocator {
    revision: u64,
    transaction: u64,
    action: u64,
    operation: u64,
    value: u64,
    dimension: u64,
    hole: u64,
    obligation: u64,
    frame: u64,
}

impl IdAllocator {
    /// Number of `RevisionId` values allocated so far.
    pub closed spec fn spec_revision(self) -> u64 {
        self.revision
    }

    /// Number of `TransactionId` values allocated so far.
    pub closed spec fn spec_transaction(self) -> u64 {
        self.transaction
    }

    /// Number of `ActionId` values allocated so far.
    pub closed spec fn spec_action(self) -> u64 {
        self.action
    }

    /// Number of `OperationId` values allocated so far.
    pub closed spec fn spec_operation(self) -> u64 {
        self.operation
    }

    /// Number of `ValueId` values allocated so far.
    pub closed spec fn spec_value(self) -> u64 {
        self.value
    }

    /// Number of `DimensionId` values allocated so far.
    pub closed spec fn spec_dimension(self) -> u64 {
        self.dimension
    }

    /// Number of `HoleId` values allocated so far.
    pub closed spec fn spec_hole(self) -> u64 {
        self.hole
    }

    /// Number of `ObligationId` values allocated so far.
    pub closed spec fn spec_obligation(self) -> u64 {
        self.obligation
    }

    /// Number of `ContinuationFrameId` values allocated so far.
    pub closed spec fn spec_frame(self) -> u64 {
        self.frame
    }

    /// Creates an allocator that has allocated nothing.
    pub fn new() -> (r: Self)
        ensures
            r.spec_revision() == 0,
            r.spec_transaction() == 0,
            r.spec_action() == 0,
            r.spec_operation() == 0,
            r.spec_value() == 0,
            r.spec_dimension() == 0,
            r.spec_hole() == 0,
            r.spec_obligation() == 0,
            r.spec_frame() == 0,
    {
        IdAllocator { revision: 0, transaction: 0, action: 0, operation: 0, value: 0, dimension: 0, hole: 0, obligation: 0, frame: 0 }
    }

    /// Allocates the next `RevisionId`.
    pub fn revision(&mut self) -> (r: RevisionId)
        requires
            old(self).spec_revision() < u64::MAX,
        ensures
            final(self).spec_revision() == old(self).spec_revision() + 1,
            final(self).spec_transaction() == old(self).spec_transaction(),
            final(self).spec_action() == old(self).spec_action(),
            final(self).spec_operation() == old(self).spec_operation(),
            final(self).spec_value() == old(self).spec_value(),
            final(self).spec_dimension() == old(self).spec_dimension(),
            final(self).spec_hole() == old(self).spec_hole(),
            final(self).spec_obligation() == old(self).spec_obligation(),
            final(self).spec_frame() == old(self).spec_frame(),
            r@ == "r"@ + decimal(final(self).spec_revision() as nat),
            r@ == next_persistent_ids(*old(self))[0],
            !same_persistent(*old(self), *final(self)),
    {
        proof {
            reveal_strlit("r");
        }
        self.revision = self.revision + 1;
        prefixed_decimal("r", self.revision)
    }

    /// Allocates the next `TransactionId`.
    pub fn transaction(&mut self) -> (r: TransactionId)
        requires
            old(self).spec_transaction() < u64::MAX,
        ensures
            final(self).spec_transaction() == old(self).spec_transaction() + 1,
            final(self).spec_revision() == old(self).spec_revision(),
            final(self).spec_action() == old(self).spec_action(),
            final(self).spec_operation() == old(self).spec_operation(),
            final(self).spec_value() == old(self).spec_value(),
            final(self).spec_dimension() == old(self).spec_dimension(),
            final(self).spec_hole() == old(self).spec_hole(),
            final(self).spec_obligation() == old(self).spec_obligation(),
            final(self).spec_frame() == old(self).spec_frame(),
            r@ == "tx"@ + decimal(final(self).spec_transaction() as nat),
            r@ == next_persistent_ids(*old(self))[1],
            !same_persistent(*old(self), *final(self)),
    {
        proof {
            reveal_strlit("tx");
        }
        self.transaction = self.transaction + 1;
        prefixed_decimal("tx", self.transaction)
    }

    /// Allocates the next `ActionId`.
    pub fn action(&mut self) -> (r: ActionId)
        requires
            old(self).spec_action() < u64::MAX,
        ensures
            final(self).spec_action() == old(self).spec_action() + 1,
            final(self).spec_revision() == old(self).spec_revision(),
            final(self).spec_transaction() == old(self).spec_transaction(),
            final(self).spec_operation() == old(self).spec_operation(),
            final(self).spec_value() == old(self).spec_value(),
            final(self).spec_dimension() == old(self).spec_dimension(),
            final(self).spec_hole() == old(self).spec_hole(),
            final(self).spec_obligation() == old(self).spec_obligation(),
            final(self).spec_frame() == old(self).spec_frame(),
            r@ == "a"@ + decimal(final(self).spec_action() as nat),
            r@ == next_persistent_ids(*old(self))[2],
            !same_persistent(*old(self), *final(self)),
    {
        proof {
            reveal_strlit("a");
        }
        self.action = self.action + 1;
        prefixed_decimal("a", self.action)
    }

    /// Allocates the next `OperationId`.
    pub fn operation(&mut self) -> (r: OperationId)
        requires
            old(self).spec_operation() < u64::MAX,
        ensures
            final(self).spec_operation() == old(self).spec_operation() + 1,
            final(self).spec_revision() == old(self).spec_revision(),
            final(self).spec_transaction() == old(self).spec_transaction(),
            final(self).spec_action() == old(self).spec_action(),
            final(self).spec_value() == old(self).spec_value(),
            final(self).spec_dimension() == old(self).spec_dimension(),
            final(self).spec_hole() == old(self).spec_hole(),
            final(self).spec_obligation() == old(self).spec_obligation(),
            final(self).spec_frame() == old(self).spec_frame(),
            r@ == "op"@ + decimal(final(self).spec_operation() as nat),
            r@ == next_persistent_ids(*old(self))[3],
            !same_persistent(*old(self), *final(self)),
    {
        proof {
            reveal_strlit("op");
        }
        self.operation = self.operation + 1;
        prefixed_decimal("op", self.operation)
    }

    /// Allocates the next `ValueId`.
    pub fn value(&mut self) -> (r: ValueId)
        requires
            old(self).spec_value() < u64::MAX,
        ensures
            final(self).spec_value() == old(self).spec_value() + 1,
            final(self).spec_revision() == old(self).spec_revision(),
            final(self).spec_transaction() == old(self).spec_transaction(),
            final(self).spec_action() == old(self).spec_action(),
            final(self).spec_operation() == old(self).spec_operation(),
            final(self).spec_dimension() == old(self).spec_dimension(),
            final(self).spec_hole() == old(self).spec_hole(),
            final(self).spec_obligation() == old(self).spec_obligation(),
            final(self).spec_frame() == old(self).spec_frame(),
            r@ == "v"@ + decimal(final(self).spec_value() as nat),
            r@ == next_persistent_ids(*old(self))[4],
            !same_persistent(*old(self), *final(self)),
    {
        proof {
            reveal_strlit("v");
        }
        self.value = self.value + 1;
        prefixed_decimal("v", self.value)
    }

    /// Allocates the next `DimensionId`.
    pub fn dimension(&mut self) -> (r: DimensionId)
        requires
            old(self).spec_dimension() < u64::MAX,
        ensures
            final(self).spec_dimension() == old(self).spec_dimension() + 1,
            final(self).spec_revision() == old(self).spec_revision(),
            final(self).spec_transaction() == old(self).spec_transaction(),
            final(self).spec_action() == old(self).spec_action(),
            final(self).spec_operation() == old(self).spec_operation(),
            final(self).spec_value() == old(self).spec_value(),
            final(self).spec_hole() == old(self).spec_hole(),
            final(self).spec_obligation() == old(self).spec_obligation(),
            final(self).spec_frame() == old(self).spec_frame(),
            r@ == "d"@ + decimal(final(self).spec_dimension() as nat),
            r@ == next_persistent_ids(*old(self))[5],
            !same_persistent(*old(self), *final(self)),
    {
        proof {
            reveal_strlit("d");
        }
        self.dimension = self.dimension + 1;
        prefixed_decimal("d", self.dimension)
    }

    /// Allocates the next `HoleId`.
    pub fn hole(&mut self) -> (r: HoleId)
        requires
            old(self).spec_hole() < u64::MAX,
        ensures
            final(self).spec_hole() == old(self).spec_hole() + 1,
            final(self).spec_revision() == old(self).spec_revision(),
            final(self).spec_transaction() == old(self).spec_transaction(),
            final(self).spec_action() == old(self).spec_action(),
            final(self).spec_operation() == old(self).spec_operation(),
            final(self).spec_value() == old(self).spec_value(),
            final(self).spec_dimension() == old(self).spec_dimension(),
            final(self).spec_obligation() == old(self).spec_obligation(),
            final(self).spec_frame() == old(self).spec_frame(),
            r@ == "h"@ + decimal(final(self).spec_hole() as nat),
            r@ == next_persistent_ids(*old(self))[6],
            !same_persistent(*old(self), *final(self)),
    {
        proof {
            reveal_strlit("h");
        }
        self.hole = self.hole + 1;
        prefixed_decimal("h", self.hole)
    }

    /// Allocates the next `ObligationId`.
    pub fn obligation(&mut self) -> (r: ObligationId)
        requires
            old(self).spec_obligation() < u64::MAX,
        ensures
            final(self).spec_obligation() == old(self).spec_obligation() + 1,
            final(self).spec_revision() == old(self).spec_revision(),
            final(self).spec_transaction() == old(self).spec_transaction(),
            final(self).spec_action() == old(self).spec_action(),
            final(self).spec_operation() == old(self).spec_operation(),
            final(self).spec_value() == old(self).spec_value(),
            final(self).spec_dimension() == old(self).spec_dimension(),
            final(self).spec_hole() == old(self).spec_hole(),
            final(self).spec_frame() == old(self).spec_frame(),
            r@ == "o"@ + decimal(final(self).spec_obligation() as nat),
            r@ == next_persistent_ids(*old(self))[7],
            !same_persistent(*old(self), *final(self)),
    {
        proof {
            reveal_strlit("o");
        }
        self.obligation = self.obligation + 1;
        prefixed_decimal("o", self.obligation)
    }

    /// Allocates the next `ContinuationFrameId`.
    pub fn frame(&mut self) -> (r: ContinuationFrameId)
        requires
            old(self).spec_frame() < u64::MAX,
        ensures
            final(self).spec_frame() == old(self).spec_frame() + 1,
            final(self).spec_revision() == old(self).spec_revision(),
            final(self).spec_transaction() == old(self).spec_transaction(),
            final(self).spec_action() == old(self).spec_action(),
            final(self).spec_operation() == old(self).spec_operation(),
            final(self).spec_value() == old(self).spec_value(),
            final(self).spec_dimension() == old(self).spec_dimension(),
            final(self).spec_hole() == old(self).spec_hole(),
            final(self).spec_obligation() == old(self).spec_obligation(),
            r@ == "cf"@ + decimal(final(self).spec_frame() as nat),
            same_persistent(*old(self), *final(self)),
    {
        proof {
            reveal_strlit("cf");
        }
        self.frame = self.frame + 1;
        prefixed_decimal("cf", self.frame)
    }

    /// Compares counters that affect persistent graph and revision identities.
    pub fn same_persistent_state(&self, other: &Self) -> (r: bool)
        ensures
            r == same_persistent(*self, *other),
    {
        self.revision == other.revision
            && self.transaction == other.transaction
            && self.action == other.action
            && self.operation == other.operation
            && self.value == other.value
            && self.dimension == other.dimension
            && self.hole == other.hole
            && self.obligation == other.obligation
    }
}

impl Default for IdAllocator {
    fn default() -> (r: Self)
        ensures
            r.spec_revision() == 0,
            r.spec_transaction() == 0,
            r.spec_action() == 0,
            r.spec_operation() == 0,
            r.spec_value() == 0,
            r.spec_dimension() == 0,
            r.spec_hole() == 0,
            r.spec_obligation() == 0,
            r.spec_frame() == 0,
    {
        IdAllocator::new()
    }
}

/// The last character of a decimal rendering is the last digit.
pub proof fn lemma_decimal_last(n: nat)
    ensures
        decimal(n).len() > 0,
        decimal(n).last() == digit_char(n % 10),
        n >= 10 ==> decimal(n).drop_last() == decimal(n / 10),
        n < 10 ==> decimal(n).len() == 1,
{
    if n >= 10 {
        assert((decimal(n / 10) + seq![digit_char(n % 10)]).drop_last() =~= decimal(n / 10));
    }
}

/// Distinct digit values below sixteen have distinct characters.
pub proof fn lemma_digit_char_injective(a: nat, b: nat)
    requires
        a < 16,
        b < 16,
        digit_char(a) == digit_char(b),
    ensures
        a == b,
{
}

/// Decimal rendering is injective.
pub proof fn lemma_decimal_injective(m: nat, n: nat)
    requires
        decimal(m) == decimal(n),
    ensures
        m == n,
    decreases m + n,
{
    lemma_decimal_last(m);
    lemma_decimal_last(n);
    lemma_digit_char_injective(m % 10, n % 10);
    if m >= 10 && n >= 10 {
        lemma_decimal_injective(m / 10, n / 10);
    } else if m >= 10 {
        lemma_decimal_last(m / 10);
        assert(decimal(m).len() >= 2);
    } else if n >= 10 {
        lemma_decimal_last(n / 10);
        assert(decimal(n).len() >= 2);
    }
}

/// Identifiers allocated from one counter under one prefix are distinct:
/// two different counter values never yield the same identifier.
pub proof fn lemma_allocated_ids_distinct(prefix: Seq<char>, m: nat, n: nat)
    requires
        m != n,
    ensures
        prefix + decimal(m) != prefix + decimal(n),
{
    if prefix + decimal(m) == prefix + decimal(n) {
        assert(decimal(m) =~= (prefix + decimal(m)).skip(prefix.len() as int));
        assert(decimal(n) =~= (prefix + decimal(n)).skip(prefix.len() as int));
        lemma_decimal_injective(m, n);
    }
}

/// Whether two allocators agree on every counter that affects persistent
/// graph and revision identities; the continuation-frame counter is ignored.
pub open spec fn same_persistent(a: IdAllocator, b: IdAllocator) -> bool {
    &&& a.spec_revision() == b.spec_revision()
    &&& a.spec_transaction() == b.spec_transaction()
    &&& a.spec_action() == b.spec_action()
    &&& a.spec_operation() == b.spec_operation()
    &&& a.spec_value() == b.spec_value()
    &&& a.spec_dimension() == b.spec_dimension()
    &&& a.spec_hole() == b.spec_hole()
    &&& a.spec_obligation() == b.spec_obligation()
}

/// The identities that the allocator's next `revision`, `transaction`,
/// `action`, `operation`, `value`, `dimension`, `hole` and `obligation`
/// calls return.
pub open spec fn next_persistent_ids(a: IdAllocator) -> Seq<Seq<char>> {
    seq![
        "r"@ + decimal((a.spec_revision() + 1) as nat),
        "tx"@ + decimal((a.spec_transaction() + 1) as nat),
        "a"@ + decimal((a.spec_action() + 1) as nat),
        "op"@ + decimal((a.spec_operation() + 1) as nat),
        "v"@ + decimal((a.spec_value() + 1) as nat),
        "d"@ + decimal((a.spec_dimension() + 1) as nat),
        "h"@ + decimal((a.spec_hole() + 1) as nat),
        "o"@ + decimal((a.spec_obligation() + 1) as nat),
    ]
}

proof fn lemma_next_id_injective(prefix: Seq<char>, m: nat, n: nat)
    ensures
        (prefix + decimal((m + 1) as nat) == prefix + decimal((n + 1) as nat)) == (m == n),
{
    if m != n {
        lemma_allocated_ids_distinct(prefix, (m + 1) as nat, (n + 1) as nat);
    }
}

/// Two allocators have the same persistent state exactly when their next
/// revision, transaction, action, operation, value, dimension, hole and
/// obligation identities are the same; the continuation-frame counter plays
/// no part.
pub proof fn law_persistent_state_is_next_identities(a: IdAllocator, b: IdAllocator)
    ensures
        same_persistent(a, b) <==> next_persistent_ids(a) == next_persistent_ids(b),
{
    lemma_next_id_injective("r"@, a.spec_revision() as nat, b.spec_revision() as nat);
    lemma_next_id_injective("tx"@, a.spec_transaction() as nat, b.spec_transaction() as nat);
    lemma_next_id_injective("a"@, a.spec_action() as nat, b.spec_action() as nat);
    lemma_next_id_injective("op"@, a.spec_operation() as nat, b.spec_operation() as nat);
    lemma_next_id_injective("v"@, a.spec_value() as nat, b.spec_value() as nat);
    lemma_next_id_injective("d"@, a.spec_dimension() as nat, b.spec_dimension() as nat);
    lemma_next_id_injective("h"@, a.spec_hole() as nat, b.spec_hole() as nat);
    lemma_next_id_injective("o"@, a.spec_obligation() as nat, b.spec_obligation() as nat);
    if next_persistent_ids(a) == next_persistent_ids(b) {
        let x = next_persistent_ids(a);
        let y = next_persistent_ids(b);
        assert(x[0] == y[0] && x[1] == y[1] && x[2] == y[2] && x[3] == y[3]);
        assert(x[4] == y[4] && x[5] == y[5] && x[6] == y[6] && x[7] == y[7]);
    }
}

} // verus!
