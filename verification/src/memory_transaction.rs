//! Atomic memory transactions: compiler-verified storage decisions applied to
//! the head revision of a memory plan and published as a new child revision.

use crate::bufferize::rebuild_analysis;
use crate::diagnostics::{AgentError, AgentResult, ErrorCode};
use crate::digest::{digest_text, domain_digest};
use crate::dependency::dependencies_well_founded;
use crate::fresh::{fresh_outcome, fresh_result, lower_fresh, FreshV};
use crate::idmap::{kv_keys, lemma_kv_at, sorted_kv, table_copied, Duplicate, IdMap};
use crate::prune::lemma_least_closed;
use crate::candidate::CandidateHash;
use crate::impl_ir::{ImplHash, ImplProgram};
use crate::semantic::SpecHash;
use crate::memory::{
    access_total, memory_id_prefix, sat_succ, MemoryAction, MemoryAllocator, MemoryAnchor, MemoryCertificate, MemoryCheckReport,
    MemoryEvent, MemoryEvidenceClass, MemoryEvidenceKind, MemoryEvidenceRecord, MemoryFallback, MemoryGuard,
    MemoryGuardPredicate, MemoryHash, MemoryObligation, MemoryObligationStatus, MemoryPlan, MemoryPlanStore,
    MemoryRevision, MemoryStatus, MemoryTransaction, VersionedMemoryEvent, make_query,
};
use crate::memory_check::{memory_verdict, reuse_results_defined, verify_memory_program};
use crate::memory_ir::{
    access_view, binding_view, buffer_same, contiguous_strides, fact_same, op_view, prove_static_reuse, reuse_result_defined,
    reuse_result_is_defined, AliasDomain, AliasFact,
    BufferAccess, Lifetime, MemoryBinding, MemoryBuffer, MemoryLayout, MemoryOperation, MemoryProgram, ReuseDecision,
    MEMORY_SEMANTICS_VERSION, MEMORY_VALIDATOR_VERSION,
};
use crate::resources::{budget_against, ResourceLimits};
use crate::ids::lemma_allocated_ids_distinct;
use crate::text::{copy_strings, decimal, seq_less, str_eq};
use vstd::prelude::*;
use vstd::utf8::encode_utf8;

verus! {

/// Memory event semantics version recorded with each published event.
pub const MEMORY_EVENT_SEMANTICS_VERSION: u32 = 1;

impl Duplicate for MemoryBinding {
    open spec fn same_content(&self, copy: &Self) -> bool {
        binding_view(*copy) == binding_view(*self)
    }

    fn duplicate(&self) -> (r: Self) {
        self.copy()
    }
}

fn copy_uses(uses: &Vec<u64>) -> (r: Vec<u64>)
    ensures
        r@ == uses@,
{
    let mut out: Vec<u64> = Vec::new();
    let mut i: usize = 0;
    while i < uses.len()
        invariant
            i <= uses@.len(),
            out@ == uses@.take(i as int),
        decreases uses.len() - i,
    {
        out.push(uses[i]);
        proof {
            assert(uses@.take(i + 1) =~= uses@.take(i as int).push(uses@[i as int]));
        }
        i = i + 1;
    }
    proof {
        assert(uses@.take(uses@.len() as int) =~= uses@);
    }
    out
}

impl Duplicate for MemoryBuffer {
    open spec fn same_content(&self, copy: &Self) -> bool {
        buffer_same(*self, *copy)
    }

    fn duplicate(&self) -> (r: Self) {
        MemoryBuffer {
            id: self.id.clone(),
            element_type: self.element_type,
            shape: self.shape.copy(),
            layout: self.layout.copy(),
            strides: self.strides.copy(),
            address_space: self.address_space,
            access: self.access,
            alignment: self.alignment,
            alias_domain: self.alias_domain.clone(),
            lifetime: Lifetime {
                first_point: self.lifetime.first_point,
                uses: copy_uses(&self.lifetime.uses),
                last_use: self.lifetime.last_use,
                output_escape: self.lifetime.output_escape,
                external: self.lifetime.external,
                deallocation_eligible: self.lifetime.deallocation_eligible,
            },
            ownership: self.ownership,
            external_binding: match &self.external_binding {
                Some(s) => Some(s.clone()),
                None => None,
            },
            source_value: self.source_value.clone(),
            offset_elements: self.offset_elements,
            provenance: self.provenance.clone(),
        }
    }
}

fn duplicate_bindings(v: &Vec<MemoryBinding>) -> (r: Vec<MemoryBinding>)
    ensures
        r@.len() == v@.len(),
        r@.map_values(|b: MemoryBinding| binding_view(b)) == v@.map_values(|b: MemoryBinding| binding_view(b)),
{
    let mut out: Vec<MemoryBinding> = Vec::new();
    let mut i: usize = 0;
    while i < v.len()
        invariant
            i <= v@.len(),
            out@.len() == i,
            forall|j: int| 0 <= j < i ==> binding_view(#[trigger] out@[j]) == binding_view(v@[j]),
        decreases v.len() - i,
    {
        out.push(v[i].copy());
        i = i + 1;
    }
    assert(out@.map_values(|b: MemoryBinding| binding_view(b)) =~= v@.map_values(|b: MemoryBinding| binding_view(b)));
    out
}

fn duplicate_operation(op: &MemoryOperation) -> (r: MemoryOperation)
    ensures
        r.accesses@.len() == op.accesses@.len(),
        op_view(r) == op_view(*op),
{
    let mut accesses: Vec<BufferAccess> = Vec::new();
    let mut i: usize = 0;
    while i < op.accesses.len()
        invariant
            i <= op.accesses@.len(),
            accesses@.len() == i,
            forall|j: int| 0 <= j < i ==> access_view(#[trigger] accesses@[j]) == access_view(op.accesses@[j]),
        decreases op.accesses.len() - i,
    {
        let a = &op.accesses[i];
        accesses.push(
            BufferAccess {
                buffer: a.buffer.clone(),
                value: a.value.clone(),
                kind: a.kind,
                typed_index: a.typed_index.clone(),
            },
        );
        i = i + 1;
    }
    assert(accesses@.map_values(|a: BufferAccess| access_view(a)) =~= op.accesses@.map_values(|a: BufferAccess| access_view(a)));
    MemoryOperation {
        id: op.id.clone(),
        impl_operation: op.impl_operation.clone(),
        opcode: op.opcode.clone(),
        operands: duplicate_bindings(&op.operands),
        results: duplicate_bindings(&op.results),
        accesses,
    }
}

proof fn lemma_access_total_same(a: Seq<(Seq<char>, MemoryOperation)>, b: Seq<(Seq<char>, MemoryOperation)>)
    requires
        a.len() == b.len(),
        forall|j: int| 0 <= j < a.len() ==> (#[trigger] a[j]).1.accesses@.len() == b[j].1.accesses@.len(),
    ensures
        access_total(a) == access_total(b),
    decreases a.len(),
{
    if a.len() > 0 {
        lemma_access_total_same(a.drop_last(), b.drop_last());
    }
}

/// Copies the operation table, keeping its keys, order and access counts.
fn duplicate_operations(ops: &IdMap<MemoryOperation>) -> (r: IdMap<MemoryOperation>)
    ensures
        table_copied(*ops, r),
        access_total(r.kv()) == access_total(ops.kv()),
{
    let n = ops.len();
    let mut out: IdMap<MemoryOperation> = IdMap::new();
    let mut i: usize = 0;
    while i < n
        invariant
            n == ops.kv().len(),
            sorted_kv(ops.kv()),
            i <= n,
            out.kv().len() == i,
            forall|j: int| 0 <= j < i ==> #[trigger] out.kv()[j].0 == ops.kv()[j].0,
            forall|j: int| 0 <= j < i ==> (#[trigger] out.kv()[j]).1.accesses@.len() == ops.kv()[j].1.accesses@.len(),
            forall|j: int| 0 <= j < i ==> op_view((#[trigger] out.kv()[j]).1) == op_view(ops.kv()[j].1),
        decreases n - i,
    {
        let (k, v) = ops.entry_at(i);
        proof {
            if i > 0 {
                assert(out.kv().last().0 == ops.kv()[i - 1].0);
                assert(seq_less(ops.kv()[i - 1].0, ops.kv()[i as int].0));
            }
        }
        out.push_ordered(k.clone(), duplicate_operation(v));
        i = i + 1;
    }
    proof {
        assert(kv_keys(out.kv()) =~= kv_keys(ops.kv()));
        lemma_access_total_same(out.kv(), ops.kv());
    }
    out
}

impl Duplicate for MemoryOperation {
    open spec fn same_content(&self, copy: &Self) -> bool {
        op_view(*copy) == op_view(*self)
    }

    fn duplicate(&self) -> (r: Self) {
        duplicate_operation(self)
    }
}

impl Duplicate for AliasDomain {
    open spec fn same_content(&self, copy: &Self) -> bool {
        *copy == *self
    }

    fn duplicate(&self) -> (r: Self) {
        AliasDomain { id: self.id.clone(), provenance: self.provenance }
    }
}

/// Whether two reuse decisions record the same choice.
pub open spec fn decision_same(a: ReuseDecision, b: ReuseDecision) -> bool {
    match a {
        ReuseDecision::Fresh { buffer: x } => b matches ReuseDecision::Fresh { buffer: y } && x@ == y@,
        ReuseDecision::InPlace { input: i1, buffer: b1, certificate: c1 } => b matches ReuseDecision::InPlace {
            input: i2,
            buffer: b2,
            certificate: c2,
        } && i1@ == i2@ && b1@ == b2@ && c1@ == c2@,
        ReuseDecision::Guarded { input: i1, buffer: b1, guard: g1, fallback: f1, certificate: c1 } => b matches ReuseDecision::Guarded {
            input: i2,
            buffer: b2,
            guard: g2,
            fallback: f2,
            certificate: c2,
        } && i1@ == i2@ && b1@ == b2@ && c1@ == c2@ && g1.id@ == g2.id@ && g1.predicate == g2.predicate
            && g1.primary_buffer@ == g2.primary_buffer@ && g1.other_buffer@ == g2.other_buffer@ && g1.dependencies@
            == g2.dependencies@ && f1.result@ == f2.result@ && buffer_same(f1.fresh_buffer, f2.fresh_buffer)
            && f1.strategy@ == f2.strategy@,
    }
}

impl Duplicate for ReuseDecision {
    open spec fn same_content(&self, copy: &Self) -> bool {
        decision_same(*self, *copy)
    }

    fn duplicate(&self) -> (r: Self) {
        match self {
            ReuseDecision::Fresh { buffer } => ReuseDecision::Fresh { buffer: buffer.clone() },
            ReuseDecision::InPlace { input, buffer, certificate } => ReuseDecision::InPlace {
                input: input.clone(),
                buffer: buffer.clone(),
                certificate: certificate.clone(),
            },
            ReuseDecision::Guarded { input, buffer, guard, fallback, certificate } => ReuseDecision::Guarded {
                input: input.clone(),
                buffer: buffer.clone(),
                guard: Box::new(
                    MemoryGuard {
                        id: guard.id.clone(),
                        predicate: guard.predicate,
                        primary_buffer: guard.primary_buffer.clone(),
                        other_buffer: guard.other_buffer.clone(),
                        dependencies: copy_strings(&guard.dependencies),
                    },
                ),
                fallback: Box::new(
                    MemoryFallback {
                        result: fallback.result.clone(),
                        fresh_buffer: fallback.fresh_buffer.duplicate(),
                        strategy: fallback.strategy.clone(),
                    },
                ),
                certificate: certificate.clone(),
            },
        }
    }
}

/// Whether `r` holds a copy of every table and sequence of `p`.
pub open spec fn program_copied(p: MemoryProgram, r: MemoryProgram) -> bool {
    &&& table_copied(p.bindings, r.bindings)
    &&& table_copied(p.buffers, r.buffers)
    &&& table_copied(p.fresh_baseline_buffers, r.fresh_baseline_buffers)
    &&& table_copied(p.operations, r.operations)
    &&& r.operation_order@ == p.operation_order@
    &&& table_copied(p.operation_for_impl, r.operation_for_impl)
    &&& table_copied(p.outputs, r.outputs)
    &&& table_copied(p.alias_domains, r.alias_domains)
    &&& r.alias_facts@.len() == p.alias_facts@.len()
    &&& forall|j: int| 0 <= j < p.alias_facts@.len() ==> fact_same(#[trigger] r.alias_facts@[j], p.alias_facts@[j])
    &&& table_copied(p.reuse_decisions, r.reuse_decisions)
}

/// Copies a memory program table by table.
pub fn duplicate_program(p: &MemoryProgram) -> (r: MemoryProgram)
    ensures
        program_copied(*p, r),
        access_total(r.operations.kv()) == access_total(p.operations.kv()),
{
    let mut facts: Vec<AliasFact> = Vec::new();
    let mut i: usize = 0;
    while i < p.alias_facts.len()
        invariant
            i <= p.alias_facts@.len(),
            facts@.len() == i,
            forall|j: int| 0 <= j < i ==> fact_same(#[trigger] facts@[j], p.alias_facts@[j]),
        decreases p.alias_facts.len() - i,
    {
        facts.push(p.alias_facts[i].copy());
        i = i + 1;
    }
    MemoryProgram {
        bindings: p.bindings.duplicate_all(),
        buffers: p.buffers.duplicate_all(),
        fresh_baseline_buffers: p.fresh_baseline_buffers.duplicate_all(),
        operations: duplicate_operations(&p.operations),
        operation_order: copy_strings(&p.operation_order),
        operation_for_impl: p.operation_for_impl.duplicate_all(),
        outputs: p.outputs.duplicate_all(),
        alias_domains: p.alias_domains.duplicate_all(),
        alias_facts: facts,
        reuse_decisions: p.reuse_decisions.duplicate_all(),
    }
}

fn duplicate_action(a: &MemoryAction) -> (r: MemoryAction)
    ensures
        (r is RequestGuardedReuse) == (*a is RequestGuardedReuse),
{
    match a {
        MemoryAction::ChooseFreshBuffer { result } => MemoryAction::ChooseFreshBuffer { result: result.clone() },
        MemoryAction::RequestInPlaceReuse { input, result } => MemoryAction::RequestInPlaceReuse {
            input: input.clone(),
            result: result.clone(),
        },
        MemoryAction::RequestGuardedReuse { input, result, guard_against } => MemoryAction::RequestGuardedReuse {
            input: input.clone(),
            result: result.clone(),
            guard_against: guard_against.clone(),
        },
        MemoryAction::SetLayout { buffer, layout } => MemoryAction::SetLayout { buffer: buffer.clone(), layout: layout.copy() },
        MemoryAction::SetAddressSpace { buffer, address_space } => MemoryAction::SetAddressSpace {
            buffer: buffer.clone(),
            address_space: *address_space,
        },
        MemoryAction::SetAlignment { buffer, alignment } => MemoryAction::SetAlignment {
            buffer: buffer.clone(),
            alignment: *alignment,
        },
    }
}

fn duplicate_transaction(t: &MemoryTransaction) -> (r: MemoryTransaction)
    ensures
        r.memory_plan@ == t.memory_plan@,
        r.base_memory_revision@ == t.base_memory_revision@,
        r.actions@.len() == t.actions@.len(),
{
    let mut actions: Vec<MemoryAction> = Vec::new();
    let mut i: usize = 0;
    while i < t.actions.len()
        invariant
            i <= t.actions@.len(),
            actions@.len() == i,
        decreases t.actions.len() - i,
    {
        actions.push(duplicate_action(&t.actions[i]));
        i = i + 1;
    }
    MemoryTransaction {
        memory_plan: t.memory_plan.clone(),
        base_memory_revision: t.base_memory_revision.clone(),
        expected_memory_hash: MemoryHash(t.expected_memory_hash.0.clone()),
        expected_impl_hash: ImplHash(t.expected_impl_hash.0.clone()),
        actions,
    }
}

/// Whether an action requests reuse of an input's storage.
pub open spec fn requests_reuse(a: MemoryAction) -> bool {
    a is RequestInPlaceReuse || a is RequestGuardedReuse
}

/// Number of reuse requests among the actions.
pub open spec fn reuse_request_count(actions: Seq<MemoryAction>) -> nat
    decreases actions.len(),
{
    if actions.len() == 0 {
        0
    } else {
        reuse_request_count(actions.drop_last()) + if requests_reuse(actions.last()) { 1nat } else { 0nat }
    }
}

/// Whether some action requests guarded reuse.
pub open spec fn has_guarded_request(actions: Seq<MemoryAction>) -> bool {
    exists|i: int| 0 <= i < actions.len() && #[trigger] actions[i] is RequestGuardedReuse
}

/// The first admission check a transaction fails against a store, in the
/// order the checks run, before any action is attempted.
pub open spec fn admission_failure(store: MemoryPlanStore, t: MemoryTransaction, limits: ResourceLimits) -> Option<ErrorCode> {
    if t.actions@.len() == 0 {
        Some(ErrorCode::InvalidRequest)
    } else if reuse_request_count(t.actions@) > limits.memory_reuse_attempts {
        Some(ErrorCode::ResourceLimitExceeded)
    } else if !store.plans@.contains_key(t.memory_plan@) {
        Some(ErrorCode::MemoryPlanNotFound)
    } else if !store.plans@[t.memory_plan@].revisions@.contains_key(t.base_memory_revision@) {
        Some(ErrorCode::MemoryRevisionNotFound)
    } else if store.plans@[t.memory_plan@].head@ != t.base_memory_revision@ {
        Some(ErrorCode::StaleMemoryBase)
    } else if store.plans@[t.memory_plan@].revisions@[t.base_memory_revision@].status == MemoryStatus::Sealed {
        Some(ErrorCode::MemoryEquivalenceUnproved)
    } else if store.plans@[t.memory_plan@].revisions@[t.base_memory_revision@].memory_hash.0@ != t.expected_memory_hash.0@ {
        Some(ErrorCode::MemoryHashMismatch)
    } else if store.plans@[t.memory_plan@].revisions@[t.base_memory_revision@].impl_hash.0@ != t.expected_impl_hash.0@ {
        Some(ErrorCode::MemoryEquivalenceUnproved)
    } else {
        None
    }
}

fn count_reuse_requests(actions: &Vec<MemoryAction>) -> (r: u64)
    ensures
        r == reuse_request_count(actions@),
{
    let mut n: u64 = 0;
    let mut i: usize = 0;
    while i < actions.len()
        invariant
            i <= actions@.len(),
            n == reuse_request_count(actions@.take(i as int)),
            n <= i,
        decreases actions.len() - i,
    {
        proof {
            assert(actions@.take(i + 1).drop_last() =~= actions@.take(i as int));
        }
        match &actions[i] {
            MemoryAction::RequestInPlaceReuse { .. } | MemoryAction::RequestGuardedReuse { .. } => {
                n = n + 1;
            },
            _ => {},
        }
        i = i + 1;
    }
    proof {
        assert(actions@.take(actions@.len() as int) =~= actions@);
    }
    n
}

fn check_admission(store: &MemoryPlanStore, t: &MemoryTransaction, limits: &ResourceLimits) -> (r: AgentResult<()>)
    ensures
        match admission_failure(*store, *t, *limits) {
            Some(c) => r matches Err(e) && e.code == c,
            None => r is Ok,
        },
{
    if t.actions.len() == 0 {
        return Err(AgentError::new(ErrorCode::InvalidRequest, "memory transaction must contain at least one action"));
    }
    budget_against(limits.memory_reuse_attempts, count_reuse_requests(&t.actions), "memory transaction before graph clone")?;
    let plan = match store.plans.get(t.memory_plan.as_str()) {
        Some(p) => p,
        None => {
            return Err(AgentError::new(ErrorCode::MemoryPlanNotFound, "memory plan does not exist"));
        },
    };
    let base = match plan.revisions.get(t.base_memory_revision.as_str()) {
        Some(b) => b,
        None => {
            return Err(AgentError::new(ErrorCode::MemoryRevisionNotFound, "memory revision does not exist"));
        },
    };
    if !str_eq(plan.head.as_str(), t.base_memory_revision.as_str()) {
        return Err(AgentError::new(ErrorCode::StaleMemoryBase, "memory transaction base is stale"));
    }
    if base.status == MemoryStatus::Sealed {
        return Err(AgentError::new(ErrorCode::MemoryEquivalenceUnproved, "sealed memory plan cannot be edited"));
    }
    if !str_eq(base.memory_hash.0.as_str(), t.expected_memory_hash.0.as_str()) {
        return Err(AgentError::new(ErrorCode::MemoryHashMismatch, "memory transaction expected hash is stale"));
    }
    if !str_eq(base.impl_hash.0.as_str(), t.expected_impl_hash.0.as_str()) {
        return Err(
            AgentError::new(
                ErrorCode::MemoryEquivalenceUnproved,
                "memory transaction expected impl_hash differs from immutable anchor",
            ),
        );
    }
    Ok(())
}

/// Applies one compiler-chosen update to a buffer's layout, address space or alignment.
fn update_buffer(b: &mut MemoryBuffer, action: &MemoryAction) {
    match action {
        MemoryAction::SetLayout { layout, .. } => {
            b.layout = layout.copy();
            match layout {
                MemoryLayout::ExplicitStrided { strides } => {
                    b.strides = strides.copy();
                },
                MemoryLayout::ContiguousRowMajor => {
                    match contiguous_strides(&b.shape) {
                        Ok(s) => {
                            b.strides = s;
                        },
                        Err(_) => {},
                    }
                },
            }
        },
        MemoryAction::SetAddressSpace { address_space, .. } => {
            b.address_space = *address_space;
        },
        MemoryAction::SetAlignment { alignment, .. } => {
            b.alignment = *alignment;
        },
        _ => {},
    }
}

/// Updates the active buffer `buffer` and every fresh baseline with the same identity.
fn update_buffer_and_baselines(program: &mut MemoryProgram, buffer: &str, action: &MemoryAction) -> (r: AgentResult<()>)
    ensures
        r is Ok <==> old(program).buffers@.contains_key(buffer@),
        r matches Err(e) ==> e.code == ErrorCode::BufferNotFound && *final(program) == *old(program),
{
    let mut active = match program.buffers.get(buffer) {
        Some(b) => b.duplicate(),
        None => {
            return Err(AgentError::new(ErrorCode::BufferNotFound, "buffer does not exist"));
        },
    };
    update_buffer(&mut active, action);
    program.buffers.insert(buffer.to_string(), active);
    let n = program.fresh_baseline_buffers.len();
    let mut i: usize = 0;
    while i < n
        invariant
            i <= n,
            program.fresh_baseline_buffers.spec_len() == n,
        decreases n - i,
    {
        let (k, b) = program.fresh_baseline_buffers.entry_at(i);
        if str_eq(b.id.as_str(), buffer) {
            let key = k.clone();
            let mut updated = b.duplicate();
            update_buffer(&mut updated, action);
            proof {
                assert(program.fresh_baseline_buffers.has(key@)) by {
                    assert(program.fresh_baseline_buffers.kv()[i as int].0 == key@);
                }
            }
            program.fresh_baseline_buffers.insert(key, updated);
        }
        i = i + 1;
    }
    Ok(())
}

/// Whether every binding of `m` names a value of `p`.
pub open spec fn bindings_in_values(m: MemoryProgram, p: ImplProgram) -> bool {
    forall|v: Seq<char>| #[trigger] m.bindings@.contains_key(v) ==> p.values@.contains_key(v)
}

/// Whether `m` names only values and reuse results that `p` defines, which
/// verification of `m` against `p` needs.
pub open spec fn program_names_defined(m: MemoryProgram, p: ImplProgram) -> bool {
    bindings_in_values(m, p) && reuse_results_defined(m, p)
}

/// Whether every binding names an ImplIR value and every reuse decision's
/// result has a defining operation, which verification of the program needs.
fn program_checkable(memory: &MemoryProgram, implementation: &ImplProgram) -> (r: bool)
    ensures
        r == program_names_defined(*memory, *implementation),
{
    let n = memory.bindings.len();
    let mut i: usize = 0;
    while i < n
        invariant
            i <= n,
            n == memory.bindings.kv().len(),
            sorted_kv(memory.bindings.kv()),
            forall|j: int| 0 <= j < i ==> implementation.values@.contains_key(#[trigger] memory.bindings.kv()[j].0),
        decreases n - i,
    {
        let (k, _) = memory.bindings.entry_at(i);
        if !implementation.values.contains_key(k.as_str()) {
            proof {
                lemma_kv_at(memory.bindings.kv(), i as int);
                assert(memory.bindings@.contains_key(k@));
            }
            return false;
        }
        i = i + 1;
    }
    let m = memory.reuse_decisions.len();
    let mut j: usize = 0;
    while j < m
        invariant
            j <= m,
            m == memory.reuse_decisions.kv().len(),
            forall|x: int| 0 <= x < j && !((#[trigger] memory.reuse_decisions.kv()[x]).1 is Fresh) ==> reuse_result_defined(
                *implementation,
                memory.reuse_decisions.kv()[x].0,
            ),
        decreases m - j,
    {
        let (k, d) = memory.reuse_decisions.entry_at(j);
        let fresh = match d {
            ReuseDecision::Fresh { .. } => true,
            _ => false,
        };
        if !fresh && !reuse_result_is_defined(implementation, k.as_str()) {
            proof {
                assert(!(memory.reuse_decisions.kv()[j as int].1 is Fresh));
            }
            return false;
        }
        j = j + 1;
    }
    proof {
        assert forall|v: Seq<char>| #[trigger] memory.bindings@.contains_key(v) implies implementation.values@.contains_key(v) by {
            let kv = memory.bindings.kv();
            let w = choose|w: int| 0 <= w < kv.len() && #[trigger] kv[w].0 == v;
            assert(implementation.values@.contains_key(kv[w].0));
        }
    }
    true
}

proof fn lemma_access_total_prefix(ops: Seq<(Seq<char>, MemoryOperation)>, i: int)
    requires
        0 <= i <= ops.len(),
    ensures
        access_total(ops.take(i)) <= access_total(ops),
    decreases ops.len() - i,
{
    if i < ops.len() {
        lemma_access_total_prefix(ops, i + 1);
        assert(ops.take(i + 1).drop_last() =~= ops.take(i));
    } else {
        assert(ops.take(i) =~= ops);
    }
}

/// Whether the explicit accesses of a program can be counted in a `usize`.
fn accesses_countable(program: &MemoryProgram) -> (r: bool)
    ensures
        r == (access_total(program.operations.kv()) <= usize::MAX),
{
    let n = program.operations.len();
    let mut total: usize = 0;
    let mut i: usize = 0;
    while i < n
        invariant
            i <= n,
            n == program.operations.kv().len(),
            total == access_total(program.operations.kv().take(i as int)),
        decreases n - i,
    {
        let (_, op) = program.operations.entry_at(i);
        proof {
            assert(program.operations.kv().take(i + 1).drop_last() =~= program.operations.kv().take(i as int));
        }
        let len = op.accesses.len();
        if total > usize::MAX - len {
            proof {
                lemma_access_total_prefix(program.operations.kv(), i + 1);
            }
            return false;
        }
        total = total + len;
        i = i + 1;
    }
    proof {
        assert(program.operations.kv().take(n as int) =~= program.operations.kv());
    }
    true
}

/// `a + b`, saturated at `u64::MAX`.
pub open spec fn sat_sum(a: int, b: int) -> int {
    if a + b > u64::MAX {
        u64::MAX as int
    } else {
        a + b
    }
}

/// Number of revisions over the plans `plans`.
pub open spec fn revision_count(plans: Seq<(Seq<char>, MemoryPlan)>) -> int
    decreases plans.len(),
{
    if plans.len() == 0 {
        0
    } else {
        revision_count(plans.drop_last()) + plans.last().1.revisions.spec_len()
    }
}

/// Total number of revisions over every plan, saturated at `u64::MAX`.
fn total_revisions(store: &MemoryPlanStore) -> (r: u64)
    ensures
        r == sat_sum(revision_count(store.plans.kv()), 0),
{
    let n = store.plans.len();
    let mut total: u64 = 0;
    let mut i: usize = 0;
    while i < n
        invariant
            i <= n,
            n == store.plans.kv().len(),
            total == sat_sum(revision_count(store.plans.kv().take(i as int)), 0),
        decreases n - i,
    {
        let (_, p) = store.plans.entry_at(i);
        proof {
            assert(store.plans.kv().take(i + 1).drop_last() =~= store.plans.kv().take(i as int));
        }
        let count = p.revisions.len() as u64;
        total = total.saturating_add(count);
        i = i + 1;
    }
    proof {
        assert(store.plans.kv().take(n as int) =~= store.plans.kv());
    }
    total
}

/// A revision staged from a transaction's actions, not yet published.
struct Staged {
    next: MemoryRevision,
    allocator: MemoryAllocator,
    method: String,
    kind: MemoryEvidenceKind,
    side_conditions: Vec<String>,
}

proof fn lemma_guarded_step(actions: Seq<MemoryAction>, i: int)
    requires
        0 <= i < actions.len(),
    ensures
        has_guarded_request(actions.take(i + 1)) == (has_guarded_request(actions.take(i))
            || actions[i] is RequestGuardedReuse),
{
    let a = actions.take(i + 1);
    let b = actions.take(i);
    if has_guarded_request(a) {
        let w = choose|w: int| 0 <= w < a.len() && #[trigger] a[w] is RequestGuardedReuse;
        if w < i {
            assert(b[w] is RequestGuardedReuse);
        }
    }
    if has_guarded_request(b) {
        let w = choose|w: int| 0 <= w < b.len() && #[trigger] b[w] is RequestGuardedReuse;
        assert(a[w] is RequestGuardedReuse);
    }
    if actions[i] is RequestGuardedReuse {
        assert(a[i] is RequestGuardedReuse);
    }
}

fn push_all(out: &mut Vec<String>, items: Vec<String>)
    ensures
        final(out)@ == old(out)@ + items@,
{
    let ghost start = out@;
    let mut i: usize = 0;
    while i < items.len()
        invariant
            i <= items@.len(),
            out@ == start + items@.take(i as int),
        decreases items.len() - i,
    {
        out.push(items[i].clone());
        proof {
            assert(items@.take(i + 1) =~= items@.take(i as int).push(items@[i as int]));
        }
        i = i + 1;
    }
    proof {
        assert(items@.take(items@.len() as int) =~= items@);
    }
}

fn buffer_of(program: &MemoryProgram, value: &str) -> (r: AgentResult<String>) {
    match program.bindings.get(value) {
        Some(b) => match b.buffer() {
            Some(x) => Ok(x.clone()),
            None => Err(AgentError::new(ErrorCode::BufferNotFound, "reuse input has no buffer")),
        },
        None => Err(AgentError::new(ErrorCode::BufferNotFound, "reuse input has no buffer")),
    }
}

/// Applies the actions of `t` in order to a copy of `base`, re-deriving the
/// analysis and re-verifying the program after each action.
fn stage(
    store: &MemoryPlanStore,
    base: &MemoryRevision,
    t: &MemoryTransaction,
    implementation: &ImplProgram,
    limits: &ResourceLimits,
) -> (r: AgentResult<Staged>)
    requires
        t.actions@.len() > 0,
    ensures
        r matches Ok(s) ==> {
            &&& s.next.parents@.len() == 1
            &&& s.next.parents@[0]@ == base.id@
            &&& s.allocator.counter(1) == sat_succ(store.allocator.counter(1))
            &&& s.next.id@ == memory_id_prefix(1) + decimal(s.allocator.counter(1) as nat)
            &&& s.next.status == (if has_guarded_request(t.actions@) { MemoryStatus::Guarded } else { MemoryStatus::Proved })
            &&& s.next.obligations@.len() == 0
            &&& s.next.certificates@.len() == 0
            &&& s.next.evidence@.len() == 0
            &&& s.next.impl_hash.0@ == base.impl_hash.0@
            &&& memory_verdict(s.next.program, *implementation, *limits) is Ok
        },
{
    let mut allocator = store.allocator.copy();
    let revision_id = allocator.revision();
    let mut next = MemoryRevision {
        id: revision_id,
        parents: vec![base.id.clone()],
        program: duplicate_program(&base.program),
        memory_hash: MemoryHash(base.memory_hash.0.clone()),
        impl_hash: ImplHash(base.impl_hash.0.clone()),
        status: MemoryStatus::Proved,
        obligations: Vec::new(),
        certificates: Vec::new(),
        evidence: Vec::new(),
    };
    let mut method = String::from_str("memory_transaction_v1");
    let mut kind = MemoryEvidenceKind::CompositionalMemoryVerification;
    let mut side_conditions: Vec<String> = Vec::new();
    let ghost rev_counter = allocator.counter(1);
    let mut i: usize = 0;
    while i < t.actions.len()
        invariant
            t.actions@.len() > 0,
            i <= t.actions@.len(),
            next.parents@.len() == 1,
            next.parents@[0]@ == base.id@,
            rev_counter == sat_succ(store.allocator.counter(1)),
            allocator.counter(1) == rev_counter,
            next.id@ == memory_id_prefix(1) + decimal(rev_counter as nat),
            next.status == (if has_guarded_request(t.actions@.take(i as int)) { MemoryStatus::Guarded } else { MemoryStatus::Proved }),
            next.obligations@.len() == 0,
            next.certificates@.len() == 0,
            next.evidence@.len() == 0,
            next.impl_hash.0@ == base.impl_hash.0@,
            i > 0 ==> memory_verdict(next.program, *implementation, *limits) is Ok,
        decreases t.actions.len() - i,
    {
        proof {
            lemma_guarded_step(t.actions@, i as int);
        }
        let action = &t.actions[i];
        match action {
            MemoryAction::ChooseFreshBuffer { result } => {
                let fresh = match next.program.fresh_baseline_buffers.get(result.as_str()) {
                    Some(b) => b.duplicate(),
                    None => {
                        return Err(AgentError::new(ErrorCode::BufferNotFound, "result has no compiler-owned fresh baseline"));
                    },
                };
                let fresh_id = fresh.id.clone();
                next.program.buffers.insert(fresh_id.clone(), fresh);
                next.program.bindings.insert(result.clone(), MemoryBinding::Buffer { value: result.clone(), buffer: fresh_id.clone() });
                next.program.reuse_decisions.insert(result.clone(), ReuseDecision::Fresh { buffer: fresh_id });
                side_conditions.push(String::from_str("fresh exact fallback selected"));
            },
            MemoryAction::RequestInPlaceReuse { input, result } => {
                if !reuse_result_is_defined(implementation, result.as_str()) {
                    return Err(AgentError::new(ErrorCode::MemoryEquivalenceUnproved, "reuse result has no defining operation"));
                }
                let proved = prove_static_reuse(&next.program, implementation, input.as_str(), result.as_str())?;
                let buffer = buffer_of(&next.program, input.as_str())?;
                let fresh_id = match next.program.fresh_baseline_buffers.get(result.as_str()) {
                    Some(f) => Some(f.id.clone()),
                    None => None,
                };
                match fresh_id {
                    Some(f) => {
                        next.program.buffers.remove(f.as_str());
                    },
                    None => {},
                }
                next.program.bindings.insert(result.clone(), MemoryBinding::Buffer { value: result.clone(), buffer: buffer.clone() });
                next.program.reuse_decisions.insert(
                    result.clone(),
                    ReuseDecision::InPlace {
                        input: input.clone(),
                        buffer,
                        certificate: String::from_str("static_in_place_reuse_v1"),
                    },
                );
                method = String::from_str("static_in_place_reuse_v1");
                kind = MemoryEvidenceKind::InPlaceReuse;
                push_all(&mut side_conditions, proved);
            },
            MemoryAction::RequestGuardedReuse { input, result, guard_against } => {
                if !reuse_result_is_defined(implementation, result.as_str()) {
                    return Err(AgentError::new(ErrorCode::MemoryEquivalenceUnproved, "reuse result has no defining operation"));
                }
                let proved = prove_static_reuse(&next.program, implementation, input.as_str(), result.as_str())?;
                let buffer = buffer_of(&next.program, input.as_str())?;
                if str_eq(buffer.as_str(), guard_against.as_str()) || !next.program.buffers.contains_key(guard_against.as_str()) {
                    return Err(AgentError::new(ErrorCode::MemoryGuardInvalid, "NoOverlap requires two distinct existing typed buffers"));
                }
                budget_against(limits.memory_guard_dependencies, 4, "compiler-owned NoOverlap guard")?;
                budget_against(limits.memory_guard_depth, 1, "compiler-owned NoOverlap guard")?;
                budget_against(limits.memory_fallback_depth, 1, "compiler-owned exact memory fallback")?;
                let fresh = match next.program.fresh_baseline_buffers.get(result.as_str()) {
                    Some(b) => b.duplicate(),
                    None => {
                        return Err(AgentError::new(ErrorCode::MemoryFallbackInvalid, "guarded reuse lacks a fresh baseline fallback"));
                    },
                };
                next.program.buffers.insert(fresh.id.clone(), fresh.duplicate());
                next.program.bindings.insert(result.clone(), MemoryBinding::Buffer { value: result.clone(), buffer: buffer.clone() });
                let guard_id = allocator.guard();
                let dependencies = vec![
                    String::from_str("offset_elements"),
                    String::from_str("shape"),
                    String::from_str("strides"),
                    String::from_str("element_type"),
                ];
                next.program.reuse_decisions.insert(
                    result.clone(),
                    ReuseDecision::Guarded {
                        input: input.clone(),
                        buffer: buffer.clone(),
                        guard: Box::new(
                            MemoryGuard {
                                id: guard_id,
                                predicate: MemoryGuardPredicate::NoOverlap,
                                primary_buffer: buffer,
                                other_buffer: guard_against.clone(),
                                dependencies,
                            },
                        ),
                        fallback: Box::new(
                            MemoryFallback {
                                result: result.clone(),
                                fresh_buffer: fresh,
                                strategy: String::from_str("lazy_fresh_allocation"),
                            },
                        ),
                        certificate: String::from_str("guarded_no_overlap_reuse_v1"),
                    },
                );
                next.status = MemoryStatus::Guarded;
                method = String::from_str("guarded_no_overlap_reuse_v1");
                kind = MemoryEvidenceKind::GuardedReuse;
                push_all(&mut side_conditions, proved);
                side_conditions.push(String::from_str("false branch uses immutable lazy fresh fallback"));
            },
            MemoryAction::SetLayout { buffer, .. } => {
                update_buffer_and_baselines(&mut next.program, buffer.as_str(), action)?;
                side_conditions.push(String::from_str("explicit layout verified"));
            },
            MemoryAction::SetAddressSpace { buffer, .. } => {
                update_buffer_and_baselines(&mut next.program, buffer.as_str(), action)?;
                side_conditions.push(String::from_str("abstract address space preserves computation"));
            },
            MemoryAction::SetAlignment { buffer, .. } => {
                update_buffer_and_baselines(&mut next.program, buffer.as_str(), action)?;
                side_conditions.push(String::from_str("alignment verified with checked arithmetic"));
            },
        }
        rebuild_analysis(&mut next.program, implementation)?;
        if !program_checkable(&next.program, implementation) {
            return Err(AgentError::new(ErrorCode::MemoryEquivalenceUnproved, "memory program names values or results outside the implementation"));
        }
        verify_memory_program(&next.program, implementation, limits)?;
        i = i + 1;
    }
    proof {
        assert(t.actions@.take(t.actions@.len() as int) =~= t.actions@);
    }
    Ok(Staged { next, allocator, method, kind, side_conditions })
}

/// Whether the evidence record `e` is correctness evidence for `revision`
/// of `plan` under the current semantics and validator.
pub open spec fn evidence_consistent(e: MemoryEvidenceRecord, id: Seq<char>, plan: MemoryPlan, revision: MemoryRevision) -> bool {
    &&& e.id@ == id
    &&& e.memory_plan@ == plan.id@
    &&& e.memory_revision@ == revision.id@
    &&& e.impl_hash.0@ == revision.impl_hash.0@
    &&& e.class == MemoryEvidenceClass::Correctness
    &&& e.memory_semantics_version == MEMORY_SEMANTICS_VERSION
    &&& e.validator_version == MEMORY_VALIDATOR_VERSION
}

/// Whether certificate `c` belongs to `revision`.
pub open spec fn certificate_consistent(c: MemoryCertificate, revision: MemoryRevision) -> bool {
    &&& c.impl_hash.0@ == revision.impl_hash.0@
    &&& c.memory_semantics_version == MEMORY_SEMANTICS_VERSION
    &&& c.validator_version == MEMORY_VALIDATOR_VERSION
    &&& exists|j: int| 0 <= j < revision.evidence@.len() && #[trigger] revision.evidence@[j]@ == c.evidence@
}

/// Whether certificate `c` ends at the memory hash of `revision`.
pub open spec fn certificate_ends_at(c: MemoryCertificate, revision: MemoryRevision) -> bool {
    c.after_memory_hash matches Some(h) && h.0@ == revision.memory_hash.0@
}

/// Domain separator for exact memory-state identity (NUL-terminated).
pub open spec fn memory_hash_domain() -> Seq<char> {
    "agentir.memory.exact.v1\0"@
}

/// Every structural condition that a verified memory revision meets, apart
/// from its canonical hash.
pub open spec fn revision_consistent(
    store: MemoryPlanStore,
    plan: MemoryPlan,
    revision: MemoryRevision,
    implementation: ImplProgram,
    limits: ResourceLimits,
) -> bool {
    &&& revision.impl_hash.0@ == plan.anchor.impl_hash.0@
    &&& revision.obligations@.len() <= limits.memory_obligations
    &&& memory_verdict(revision.program, implementation, limits) is Ok
    &&& forall|i: int| 0 <= i < revision.obligations@.len() ==> (#[trigger] revision.obligations@[i]).status
        == MemoryObligationStatus::Proved
    &&& forall|i: int, j: int| 0 <= i < j < revision.evidence@.len() ==> (#[trigger] revision.evidence@[i])@
        != (#[trigger] revision.evidence@[j])@
    &&& forall|i: int| 0 <= i < revision.evidence@.len() ==> store.evidence@.contains_key((#[trigger] revision.evidence@[i])@)
        && evidence_consistent(store.evidence@[revision.evidence@[i]@], revision.evidence@[i]@, plan, revision)
    &&& forall|i: int| 0 <= i < revision.certificates@.len() ==> certificate_consistent(
        #[trigger] revision.certificates@[i],
        revision,
    )
    &&& forall|i: int| 0 <= i < revision.evidence@.len() ==> (#[trigger] store.evidence@[revision.evidence@[i]@]).output_memory_hash.0@
        == revision.memory_hash.0@
    &&& forall|i: int| 0 <= i < revision.certificates@.len() ==> certificate_ends_at(#[trigger] revision.certificates@[i], revision)
}

fn evidence_record_consistent(e: &MemoryEvidenceRecord, id: &str, plan: &MemoryPlan, revision: &MemoryRevision) -> (r: bool)
    ensures
        r == evidence_consistent(*e, id@, *plan, *revision),
{
    str_eq(e.id.as_str(), id) && str_eq(e.memory_plan.as_str(), plan.id.as_str()) && str_eq(
        e.memory_revision.as_str(),
        revision.id.as_str(),
    ) && str_eq(e.impl_hash.0.as_str(), revision.impl_hash.0.as_str()) && e.class == MemoryEvidenceClass::Correctness
        && e.memory_semantics_version == MEMORY_SEMANTICS_VERSION && e.validator_version == MEMORY_VALIDATOR_VERSION
}

fn position_in(ids: &Vec<String>, id: &str) -> (r: bool)
    ensures
        r == exists|j: int| 0 <= j < ids@.len() && #[trigger] ids@[j]@ == id@,
{
    let mut i: usize = 0;
    while i < ids.len()
        invariant
            i <= ids@.len(),
            forall|j: int| 0 <= j < i ==> (#[trigger] ids@[j])@ != id@,
        decreases ids.len() - i,
    {
        if str_eq(ids[i].as_str(), id) {
            return true;
        }
        i = i + 1;
    }
    false
}

fn certificate_record_consistent(c: &MemoryCertificate, revision: &MemoryRevision) -> (r: bool)
    ensures
        r == certificate_consistent(*c, *revision),
{
    str_eq(c.impl_hash.0.as_str(), revision.impl_hash.0.as_str()) && c.memory_semantics_version == MEMORY_SEMANTICS_VERSION
        && c.validator_version == MEMORY_VALIDATOR_VERSION && position_in(&revision.evidence, c.evidence.as_str())
}

fn certificate_ends_at_hash(c: &MemoryCertificate, revision: &MemoryRevision) -> (r: bool)
    ensures
        r == certificate_ends_at(*c, *revision),
{
    match &c.after_memory_hash {
        Some(h) => str_eq(h.0.as_str(), revision.memory_hash.0.as_str()),
        None => false,
    }
}

/// Whether every encoding that `canonical` may give `revision` within `plan`
/// fits in `limit` bytes and digests to the revision's memory hash.
pub open spec fn encodes_to<F: Fn(&MemoryPlan, &MemoryRevision) -> Vec<u8>>(
    canonical: F,
    plan: MemoryPlan,
    revision: MemoryRevision,
    limit: u64,
) -> bool {
    forall|bytes: Vec<u8>| #[trigger] canonical.ensures((&plan, &revision), bytes) ==> bytes@.len() <= limit
        && domain_digest(encode_utf8(memory_hash_domain()), bytes@) == revision.memory_hash.0@
}

/// Whether every encoding that `canonical` may give fits in `limit` bytes.
pub open spec fn encodings_bounded<F: Fn(&MemoryPlan, &MemoryRevision) -> Vec<u8>>(canonical: F, limit: u64) -> bool {
    forall|p: &MemoryPlan, x: &MemoryRevision, bytes: Vec<u8>| #[trigger] canonical.ensures((p, x), bytes) ==> bytes@.len()
        <= limit
}

/// Whether re-verifying `revision` of `plan` succeeds: its structure is
/// consistent, it names only what the implementation defines, and its
/// canonical encoding digests to its memory hash.
pub open spec fn revision_verifiable<F: Fn(&MemoryPlan, &MemoryRevision) -> Vec<u8>>(
    store: MemoryPlanStore,
    plan: MemoryPlan,
    revision: MemoryRevision,
    implementation: ImplProgram,
    limits: ResourceLimits,
    canonical: F,
) -> bool {
    &&& revision_consistent(store, plan, revision, implementation, limits)
    &&& program_names_defined(revision.program, implementation)
    &&& encodes_to(canonical, plan, revision, limits.memory_canonical_bytes)
}

/// Re-verifies one memory revision of `plan`: its implementation anchor,
/// obligations, typed program, evidence and certificates, and that its
/// memory hash is the digest of its canonical encoding.
fn verify_revision_with<F: Fn(&MemoryPlan, &MemoryRevision) -> Vec<u8>>(
    store: &MemoryPlanStore,
    plan: &MemoryPlan,
    revision: &MemoryRevision,
    implementation: &ImplProgram,
    limits: &ResourceLimits,
    canonical: &F,
) -> (r: AgentResult<()>)
    requires
        forall|p: &MemoryPlan, x: &MemoryRevision| canonical.requires((p, x)),
    ensures
        r is Ok ==> revision_consistent(*store, *plan, *revision, *implementation, *limits),
        r is Ok ==> exists|bytes: Vec<u8>| #[trigger] canonical.ensures((plan, revision), bytes) && domain_digest(
            encode_utf8(memory_hash_domain()),
            bytes@,
        ) == revision.memory_hash.0@,
        revision_verifiable(*store, *plan, *revision, *implementation, *limits, *canonical) ==> r is Ok,
{
    if !str_eq(revision.impl_hash.0.as_str(), plan.anchor.impl_hash.0.as_str()) {
        return Err(AgentError::new(ErrorCode::MemoryEquivalenceUnproved, "memory revision impl_hash differs from immutable plan anchor"));
    }
    budget_against(limits.memory_obligations, revision.obligations.len() as u64, "MemoryIR revision verification")?;
    if !program_checkable(&revision.program, implementation) {
        return Err(AgentError::new(ErrorCode::MemoryEquivalenceUnproved, "memory program names values or results outside the implementation"));
    }
    verify_memory_program(&revision.program, implementation, limits)?;
    let mut i: usize = 0;
    while i < revision.obligations.len()
        invariant
            i <= revision.obligations@.len(),
            forall|j: int| 0 <= j < i ==> (#[trigger] revision.obligations@[j]).status == MemoryObligationStatus::Proved,
        decreases revision.obligations.len() - i,
    {
        if revision.obligations[i].status != MemoryObligationStatus::Proved {
            return Err(AgentError::new(ErrorCode::MemoryEquivalenceUnproved, "memory revision retains an unproved correctness obligation"));
        }
        i = i + 1;
    }
    let mut k: usize = 0;
    while k < revision.evidence.len()
        invariant
            k <= revision.evidence@.len(),
            forall|a: int, b: int| 0 <= a < b < k ==> (#[trigger] revision.evidence@[a])@ != (#[trigger] revision.evidence@[b])@,
            forall|a: int| 0 <= a < k ==> store.evidence@.contains_key((#[trigger] revision.evidence@[a])@)
                && evidence_consistent(store.evidence@[revision.evidence@[a]@], revision.evidence@[a]@, *plan, *revision),
        decreases revision.evidence.len() - k,
    {
        let id = revision.evidence[k].as_str();
        let mut a: usize = 0;
        while a < k
            invariant
                a <= k,
                k < revision.evidence@.len(),
                id@ == revision.evidence@[k as int]@,
                forall|b: int| 0 <= b < a ==> (#[trigger] revision.evidence@[b])@ != id@,
            decreases k - a,
        {
            if str_eq(revision.evidence[a].as_str(), id) {
                proof {
                    assert(revision.evidence@[a as int]@ == revision.evidence@[k as int]@);
                }
                return Err(AgentError::new(ErrorCode::MemoryEquivalenceUnproved, "memory correctness evidence is missing or inconsistent"));
            }
            a = a + 1;
        }
        let consistent = match store.evidence.get(id) {
            Some(e) => evidence_record_consistent(e, id, plan, revision),
            None => false,
        };
        if !consistent {
            return Err(AgentError::new(ErrorCode::MemoryEquivalenceUnproved, "memory correctness evidence is missing or inconsistent"));
        }
        k = k + 1;
    }
    let mut c: usize = 0;
    while c < revision.certificates.len()
        invariant
            c <= revision.certificates@.len(),
            forall|j: int| 0 <= j < c ==> certificate_consistent(#[trigger] revision.certificates@[j], *revision),
        decreases revision.certificates.len() - c,
    {
        if !certificate_record_consistent(&revision.certificates[c], revision) {
            return Err(AgentError::new(ErrorCode::MemoryEquivalenceUnproved, "memory structural certificate is inconsistent"));
        }
        c = c + 1;
    }
    let bytes = canonical(plan, revision);
    budget_against(limits.memory_canonical_bytes, bytes.len() as u64, "MemoryIR exact-state canonicalization")?;
    let domain = "agentir.memory.exact.v1\0";
    let actual = digest_text(domain.as_bytes(), bytes.as_slice());
    if !str_eq(actual.as_str(), revision.memory_hash.0.as_str()) {
        return Err(AgentError::new(ErrorCode::MemoryHashMismatch, "memory exact-state hash failed recomputation"));
    }
    let mut x: usize = 0;
    while x < revision.evidence.len()
        invariant
            x <= revision.evidence@.len(),
            forall|a: int| 0 <= a < revision.evidence@.len() ==> store.evidence@.contains_key((#[trigger] revision.evidence@[a])@),
            forall|a: int| 0 <= a < x ==> (#[trigger] store.evidence@[revision.evidence@[a]@]).output_memory_hash.0@
                == revision.memory_hash.0@,
        decreases revision.evidence.len() - x,
    {
        let same = match store.evidence.get(revision.evidence[x].as_str()) {
            Some(e) => str_eq(e.output_memory_hash.0.as_str(), revision.memory_hash.0.as_str()),
            None => false,
        };
        if !same {
            return Err(AgentError::new(ErrorCode::MemoryEquivalenceUnproved, "memory evidence output hash differs from revision hash"));
        }
        x = x + 1;
    }
    let mut y: usize = 0;
    while y < revision.certificates.len()
        invariant
            y <= revision.certificates@.len(),
            forall|j: int| 0 <= j < y ==> certificate_ends_at(#[trigger] revision.certificates@[j], *revision),
        decreases revision.certificates.len() - y,
    {
        if !certificate_ends_at_hash(&revision.certificates[y], revision) {
            return Err(AgentError::new(ErrorCode::MemoryEquivalenceUnproved, "memory certificate output hash differs from revision hash"));
        }
        y = y + 1;
    }
    Ok(())
}

/// Attaches one proved correctness obligation, one evidence reference and one
/// certificate to `next`, and sets its memory hash to the digest of its
/// canonical encoding within `plan`; returns the matching evidence record.
fn attach_correctness<F: Fn(&MemoryPlan, &MemoryRevision) -> Vec<u8>>(
    allocator: &mut MemoryAllocator,
    plan: &MemoryPlan,
    next: &mut MemoryRevision,
    before: Option<MemoryHash>,
    kind: MemoryEvidenceKind,
    method: String,
    side_conditions: Vec<String>,
    limits: &ResourceLimits,
    canonical: &F,
) -> (r: AgentResult<MemoryEvidenceRecord>)
    requires
        forall|p: &MemoryPlan, x: &MemoryRevision| canonical.requires((p, x)),
        old(next).obligations@.len() == 0,
    ensures
        r is Ok ==> {
            &&& final(next).program == old(next).program
            &&& final(next).id == old(next).id
            &&& final(next).parents == old(next).parents
            &&& final(next).status == old(next).status
            &&& final(next).impl_hash == old(next).impl_hash
            &&& forall|k: int| 0 <= k < 8 && k != 5 && k != 6 ==> final(allocator).counter(k) == old(allocator).counter(k)
        },
        limits.memory_obligations >= 1 && encodings_bounded(*canonical, limits.memory_canonical_bytes) ==> r is Ok,
{
    budget_against(limits.memory_obligations, 1, "MemoryIR correctness publication")?;
    let evidence_id = allocator.evidence();
    let obligation_id = allocator.obligation();
    let mut details: IdMap<String> = IdMap::new();
    details.insert(String::from_str("method"), method.clone());
    next.obligations.push(
        MemoryObligation {
            id: obligation_id,
            kind: String::from_str("memory_equivalent_to_impl"),
            status: MemoryObligationStatus::Proved,
            impl_hash: ImplHash(next.impl_hash.0.clone()),
            details,
        },
    );
    next.evidence.push(evidence_id.clone());
    next.certificates.push(
        MemoryCertificate {
            method: method.clone(),
            impl_hash: ImplHash(next.impl_hash.0.clone()),
            before_memory_hash: match &before {
                Some(h) => Some(MemoryHash(h.0.clone())),
                None => None,
            },
            after_memory_hash: None,
            side_conditions,
            evidence: evidence_id.clone(),
            memory_semantics_version: MEMORY_SEMANTICS_VERSION,
            validator_version: MEMORY_VALIDATOR_VERSION,
        },
    );
    next.memory_hash = MemoryHash(String::from_str("pending"));
    let bytes = canonical(plan, next);
    budget_against(limits.memory_canonical_bytes, bytes.len() as u64, "MemoryIR exact-state canonicalization")?;
    let domain = "agentir.memory.exact.v1\0";
    let hash = digest_text(domain.as_bytes(), bytes.as_slice());
    next.memory_hash = MemoryHash(hash.clone());
    match next.certificates.pop() {
        Some(mut certificate) => {
            certificate.after_memory_hash = Some(MemoryHash(hash.clone()));
            next.certificates.push(certificate);
        },
        None => {},
    }
    Ok(
        MemoryEvidenceRecord {
            id: evidence_id,
            class: MemoryEvidenceClass::Correctness,
            kind,
            memory_plan: plan.id.clone(),
            memory_revision: next.id.clone(),
            impl_hash: ImplHash(next.impl_hash.0.clone()),
            input_memory_hash: before,
            output_memory_hash: MemoryHash(hash),
            method,
            memory_semantics_version: MEMORY_SEMANTICS_VERSION,
            validator_version: MEMORY_VALIDATOR_VERSION,
        },
    )
}

/// Rejects a publication that would take the store, with `new_plans` more
/// plans, one more revision and one more event, over its budgets.
/// Whether the store, with `new_plans` more plans, one more revision and one
/// more event, stays within its budgets.
pub open spec fn store_budgets_hold(store: MemoryPlanStore, new_plans: int, limits: ResourceLimits) -> bool {
    &&& sat_sum(store.plans.spec_len() as int, new_plans) <= limits.memory_plans_per_workspace
    &&& sat_sum(sat_sum(revision_count(store.plans.kv()), 0), 1) <= limits.memory_revisions_per_workspace
    &&& sat_sum(store.events@.len() as int, 1) <= limits.memory_events
}

fn check_store_budgets(store: &MemoryPlanStore, new_plans: u64, limits: &ResourceLimits) -> (r: AgentResult<()>)
    requires
        new_plans <= 1,
    ensures
        r is Ok <==> store_budgets_hold(*store, new_plans as int, *limits),
{
    budget_against(limits.memory_plans_per_workspace, (store.plans.len() as u64).saturating_add(new_plans), "MemoryIR plan store")?;
    budget_against(limits.memory_revisions_per_workspace, total_revisions(store).saturating_add(1), "MemoryIR plan store")?;
    budget_against(limits.memory_events, (store.events.len() as u64).saturating_add(1), "MemoryIR plan store")
}

fn copy_anchor(a: &MemoryAnchor) -> (r: MemoryAnchor)
    ensures
        r == *a,
{
    MemoryAnchor {
        spec_revision: a.spec_revision.clone(),
        spec_hash: SpecHash(a.spec_hash.0.clone()),
        candidate: a.candidate.clone(),
        candidate_revision: a.candidate_revision.clone(),
        candidate_hash: CandidateHash(a.candidate_hash.0.clone()),
        impl_hash: ImplHash(a.impl_hash.0.clone()),
    }
}

impl MemoryPlanStore {
    /// Fully verifies one memory revision against the plan's anchor
    /// implementation `implementation`, with `canonical` giving the canonical
    /// encoding of a revision within its plan.
    pub fn check<F: Fn(&MemoryPlan, &MemoryRevision) -> Vec<u8>>(
        &self,
        plan: &str,
        revision: &str,
        implementation: &ImplProgram,
        limits: &ResourceLimits,
        canonical: F,
    ) -> (r: AgentResult<MemoryCheckReport>)
        requires
            forall|p: &MemoryPlan, x: &MemoryRevision| canonical.requires((p, x)),
        ensures
            !self.plans@.contains_key(plan@) ==> (r matches Err(e) && e.code == ErrorCode::MemoryPlanNotFound),
            self.plans@.contains_key(plan@) && !self.plans@[plan@].revisions@.contains_key(revision@) ==> (r matches Err(
                e,
            ) && e.code == ErrorCode::MemoryRevisionNotFound),
            self.plans@.contains_key(plan@) && self.plans@[plan@].revisions@.contains_key(revision@) && revision_verifiable(
                *self,
                self.plans@[plan@],
                self.plans@[plan@].revisions@[revision@],
                *implementation,
                *limits,
                canonical,
            ) && access_total(self.plans@[plan@].revisions@[revision@].program.operations.kv()) <= usize::MAX ==> r is Ok,
            r matches Ok(report) ==> ({
                let p = self.plans@[plan@];
                let x = p.revisions@[revision@];
                &&& self.plans@.contains_key(plan@) && p.revisions@.contains_key(revision@)
                &&& revision_consistent(*self, p, x, *implementation, *limits)
                &&& report.query.memory_plan@ == p.id@
                &&& report.query.memory_revision@ == x.id@
                &&& report.query.status == x.status
                &&& report.well_typed && report.equivalent_to_impl
                &&& report.sealable == (x.status == MemoryStatus::Proved || x.status == MemoryStatus::Guarded)
            }),
    {
        let p = match self.plans.get(plan) {
            Some(p) => p,
            None => {
                return Err(AgentError::new(ErrorCode::MemoryPlanNotFound, "memory plan does not exist"));
            },
        };
        let x = match p.revisions.get(revision) {
            Some(x) => x,
            None => {
                return Err(AgentError::new(ErrorCode::MemoryRevisionNotFound, "memory revision does not exist"));
            },
        };
        verify_revision_with(self, p, x, implementation, limits, &canonical)?;
        if !accesses_countable(&x.program) {
            return Err(AgentError::new(ErrorCode::ResourceLimitExceeded, "memory access count exceeds the machine word"));
        }
        let query = make_query(self, p, x);
        let sealable = x.status == MemoryStatus::Proved || x.status == MemoryStatus::Guarded;
        Ok(MemoryCheckReport { query, well_typed: true, equivalent_to_impl: true, sealable })
    }
}

impl MemoryPlanStore {
    /// Publishes `next` as the new head of plan `key`, together with its
    /// evidence record, its event and the allocator state, and summarizes it.
    fn publish_head(
        &mut self,
        key: &String,
        next: MemoryRevision,
        record: MemoryEvidenceRecord,
        event: VersionedMemoryEvent,
        allocator: MemoryAllocator,
    ) -> (r: AgentResult<MemoryCheckReport>)
        requires
            old(self).plans@.contains_key(key@),
            access_total(next.program.operations.kv()) <= usize::MAX,
        ensures
            r is Ok,
            final(self).plans@ == old(self).plans@.insert(key@, final(self).plans@[key@]),
            final(self).plans@[key@].id == old(self).plans@[key@].id,
            final(self).plans@[key@].anchor == old(self).plans@[key@].anchor,
            final(self).plans@[key@].root_revision == old(self).plans@[key@].root_revision,
            final(self).plans@[key@].parent_plan == old(self).plans@[key@].parent_plan,
            final(self).plans@[key@].forked_from_revision == old(self).plans@[key@].forked_from_revision,
            final(self).plans@[key@].head@ == next.id@,
            final(self).plans@[key@].revisions@ == old(self).plans@[key@].revisions@.insert(next.id@, next),
            final(self).allocator == allocator,
            final(self).events@ == old(self).events@.push(event),
            final(self).evidence@ == old(self).evidence@.insert(record.id@, record),
            r matches Ok(report) && report.query.memory_plan@ == old(self).plans@[key@].id@
                && report.query.memory_revision@ == next.id@ && report.query.status == next.status
                && report.well_typed && report.equivalent_to_impl
                && report.sealable == (next.status == MemoryStatus::Proved || next.status == MemoryStatus::Guarded),
    {
        let ghost old_store = *self;
        let head = next.id.clone();
        let mut owned = match self.plans.remove(key.as_str()) {
            Some(p) => p,
            None => {
                return Err(AgentError::new(ErrorCode::MemoryPlanNotFound, "memory plan does not exist"));
            },
        };
        owned.revisions.insert(head.clone(), next);
        owned.head = head.clone();
        self.plans.insert(key.clone(), owned);
        self.evidence.insert(record.id.clone(), record);
        self.events.push(event);
        self.allocator = allocator;
        proof {
            assert(self.plans@ =~= old_store.plans@.insert(key@, self.plans@[key@]));
        }
        let plan_ref = match self.plans.get(key.as_str()) {
            Some(p) => p,
            None => {
                return Err(AgentError::new(ErrorCode::MemoryPlanNotFound, "memory plan does not exist"));
            },
        };
        let revision_ref = match plan_ref.revisions.get(head.as_str()) {
            Some(x) => x,
            None => {
                return Err(AgentError::new(ErrorCode::MemoryRevisionNotFound, "memory revision does not exist"));
            },
        };
        let query = make_query(self, plan_ref, revision_ref);
        let sealable = revision_ref.status == MemoryStatus::Proved || revision_ref.status == MemoryStatus::Guarded;
        Ok(MemoryCheckReport { query, well_typed: true, equivalent_to_impl: true, sealable })
    }
}

/// Every revision identity held by the store was handed out by its
/// allocator: the revision prefix followed by a number no greater than the
/// revision counter.
pub open spec fn revision_ids_allocated(store: MemoryPlanStore) -> bool {
    forall|p: Seq<char>, k: Seq<char>|
        #![trigger store.plans@[p].revisions@.contains_key(k)]
        store.plans@.contains_key(p) && store.plans@[p].revisions@.contains_key(k) ==> exists|n: nat|
            n <= store.allocator.counter(1) && k == memory_id_prefix(1) + decimal(n)
}

/// The revision identity after the counter is never held by a plan of a
/// store whose identities were all allocated.
proof fn lemma_next_revision_id_fresh(store: MemoryPlanStore, p: Seq<char>)
    requires
        revision_ids_allocated(store),
        store.plans@.contains_key(p),
        store.allocator.counter(1) < u64::MAX,
    ensures
        !store.plans@[p].revisions@.contains_key(memory_id_prefix(1) + decimal((store.allocator.counter(1) + 1) as nat)),
{
    let next = memory_id_prefix(1) + decimal((store.allocator.counter(1) + 1) as nat);
    if store.plans@[p].revisions@.contains_key(next) {
        let n = choose|n: nat| n <= store.allocator.counter(1) && next == memory_id_prefix(1) + decimal(n);
        lemma_allocated_ids_distinct(memory_id_prefix(1), n, (store.allocator.counter(1) + 1) as nat);
    }
}

/// Publishing one freshly allocated revision under plan `key` keeps every
/// identity of the store an allocated one.
proof fn lemma_publish_keeps_ids_allocated(old_s: MemoryPlanStore, new_s: MemoryPlanStore, key: Seq<char>, head: Seq<char>)
    requires
        revision_ids_allocated(old_s),
        old_s.plans@.contains_key(key),
        new_s.plans@ == old_s.plans@.insert(key, new_s.plans@[key]),
        new_s.plans@[key].revisions@ == old_s.plans@[key].revisions@.insert(head, new_s.plans@[key].revisions@[head]),
        old_s.allocator.counter(1) <= new_s.allocator.counter(1),
        head == memory_id_prefix(1) + decimal(new_s.allocator.counter(1) as nat),
    ensures
        revision_ids_allocated(new_s),
{
    assert forall|p: Seq<char>, k: Seq<char>|
        new_s.plans@.contains_key(p) && #[trigger] new_s.plans@[p].revisions@.contains_key(k) implies exists|n: nat|
            n <= new_s.allocator.counter(1) && k == memory_id_prefix(1) + decimal(n) by {
        if p == key && k == head {
            let n = new_s.allocator.counter(1) as nat;
            assert(n <= new_s.allocator.counter(1) && k == memory_id_prefix(1) + decimal(n));
        } else {
            assert(old_s.plans@.contains_key(p) && old_s.plans@[p].revisions@.contains_key(k));
            let n = choose|n: nat| n <= old_s.allocator.counter(1) && k == memory_id_prefix(1) + decimal(n);
            assert(n <= new_s.allocator.counter(1) && k == memory_id_prefix(1) + decimal(n));
        }
    }
}

/// Adding a plan whose only revision is freshly allocated keeps every
/// identity of the store an allocated one.
proof fn lemma_new_plan_keeps_ids_allocated(old_s: MemoryPlanStore, new_s: MemoryPlanStore, key: Seq<char>, root: Seq<char>)
    requires
        revision_ids_allocated(old_s),
        new_s.plans@ == old_s.plans@.insert(key, new_s.plans@[key]),
        new_s.plans@[key].revisions@.dom() == set![root],
        old_s.allocator.counter(1) <= new_s.allocator.counter(1),
        root == memory_id_prefix(1) + decimal(new_s.allocator.counter(1) as nat),
    ensures
        revision_ids_allocated(new_s),
{
    assert forall|p: Seq<char>, k: Seq<char>|
        new_s.plans@.contains_key(p) && #[trigger] new_s.plans@[p].revisions@.contains_key(k) implies exists|n: nat|
            n <= new_s.allocator.counter(1) && k == memory_id_prefix(1) + decimal(n) by {
        if p == key {
            assert(new_s.plans@[p].revisions@.dom().contains(k));
            let n = new_s.allocator.counter(1) as nat;
            assert(n <= new_s.allocator.counter(1) && k == memory_id_prefix(1) + decimal(n));
        } else {
            assert(old_s.plans@.contains_key(p) && old_s.plans@[p].revisions@.contains_key(k));
            let n = choose|n: nat| n <= old_s.allocator.counter(1) && k == memory_id_prefix(1) + decimal(n);
            assert(n <= new_s.allocator.counter(1) && k == memory_id_prefix(1) + decimal(n));
        }
    }
}

impl MemoryPlanStore {
    /// Atomically applies compiler-verified storage decisions to the head
    /// revision of a plan and publishes the result as its new head.
    ///
    /// `implementation` is the verified ImplIR program of the plan's anchor,
    /// and `canonical` gives the canonical encoding of a revision within its
    /// plan, whose domain-separated SHA-256 digest is the revision's exact
    /// memory hash. The store is left unchanged on every error.
    #[verifier::rlimit(60)]
    pub fn apply<F: Fn(&MemoryPlan, &MemoryRevision) -> Vec<u8>>(
        &mut self,
        transaction: &MemoryTransaction,
        implementation: &ImplProgram,
        limits: &ResourceLimits,
        candidate_event_cursor: u64,
        equality_event_cursor: u64,
        canonical: F,
    ) -> (r: AgentResult<MemoryCheckReport>)
        requires
            forall|p: &MemoryPlan, x: &MemoryRevision| canonical.requires((p, x)),
        ensures
            admission_failure(*old(self), *transaction, *limits) matches Some(c) ==> (r matches Err(e) && e.code == c),
            r is Err ==> *final(self) == *old(self),
            r is Ok ==> ({
                let key = transaction.memory_plan@;
                let before = old(self).plans@[key];
                let after = final(self).plans@[key];
                let head = after.head@;
                &&& admission_failure(*old(self), *transaction, *limits) is None
                &&& revision_consistent(
                    *old(self),
                    before,
                    before.revisions@[transaction.base_memory_revision@],
                    *implementation,
                    *limits,
                )
                &&& final(self).plans@ == old(self).plans@.insert(key, after)
                &&& after.id == before.id
                &&& after.anchor == before.anchor
                &&& after.root_revision == before.root_revision
                &&& after.parent_plan == before.parent_plan
                &&& after.forked_from_revision == before.forked_from_revision
                &&& final(self).allocator.counter(1) == sat_succ(old(self).allocator.counter(1))
                &&& head == memory_id_prefix(1) + decimal(final(self).allocator.counter(1) as nat)
                &&& after.revisions@ == before.revisions@.insert(head, after.revisions@[head])
                &&& forall|k: Seq<char>| #[trigger] before.revisions@.contains_key(k) && k != head ==> after.revisions@[k]
                    == before.revisions@[k]
                &&& after.revisions@[head].parents@.len() == 1
                &&& after.revisions@[head].parents@[0]@ == before.revisions@[transaction.base_memory_revision@].id@
                &&& before.revisions@[transaction.base_memory_revision@].id@ == transaction.base_memory_revision@
                    ==> after.revisions@[head].parents@[0]@ == transaction.base_memory_revision@
                &&& after.revisions@[head].status == (if has_guarded_request(transaction.actions@) {
                    MemoryStatus::Guarded
                } else {
                    MemoryStatus::Proved
                })
                &&& after.revisions@[head].impl_hash.0@ == transaction.expected_impl_hash.0@
                &&& memory_verdict(after.revisions@[head].program, *implementation, *limits) is Ok
                &&& final(self).events@.len() == old(self).events@.len() + 1
                &&& r matches Ok(report) && report.query.memory_revision@ == head && report.query.memory_plan@ == after.id@
                    && report.query.status == after.revisions@[head].status
                &&& revision_ids_allocated(*old(self)) && old(self).allocator.counter(1) < u64::MAX ==> {
                    &&& !before.revisions@.contains_key(head)
                    &&& head != transaction.base_memory_revision@
                }
                &&& revision_ids_allocated(*old(self)) ==> revision_ids_allocated(*final(self))
            }),
    {
        let ghost old_store = *self;
        check_admission(self, transaction, limits)?;
        let plan = match self.plans.get(transaction.memory_plan.as_str()) {
            Some(p) => p,
            None => {
                return Err(AgentError::new(ErrorCode::MemoryPlanNotFound, "memory plan does not exist"));
            },
        };
        let base = match plan.revisions.get(transaction.base_memory_revision.as_str()) {
            Some(b) => b,
            None => {
                return Err(AgentError::new(ErrorCode::MemoryRevisionNotFound, "memory revision does not exist"));
            },
        };
        verify_revision_with(self, plan, base, implementation, limits, &canonical)?;
        let staged = stage(self, base, transaction, implementation, limits)?;
        let Staged { mut next, mut allocator, method, kind, side_conditions } = staged;
        let record = attach_correctness(
            &mut allocator,
            plan,
            &mut next,
            Some(MemoryHash(base.memory_hash.0.clone())),
            kind,
            method,
            side_conditions,
            limits,
            &canonical,
        )?;
        check_store_budgets(self, 0, limits)?;
        if !accesses_countable(&next.program) {
            return Err(AgentError::new(ErrorCode::ResourceLimitExceeded, "memory access count exceeds the machine word"));
        }
        let hash = record.output_memory_hash.0.clone();
        let head = next.id.clone();
        let event = VersionedMemoryEvent {
            semantics_version: MEMORY_EVENT_SEMANTICS_VERSION,
            candidate_event_cursor,
            equality_event_cursor,
            event: MemoryEvent::Applied {
                transaction: duplicate_transaction(transaction),
                memory_revision: head.clone(),
                memory_hash: MemoryHash(hash),
            },
        };
        let r = self.publish_head(&transaction.memory_plan, next, record, event, allocator);
        proof {
            let key = transaction.memory_plan@;
            if revision_ids_allocated(old_store) {
                if old_store.allocator.counter(1) < u64::MAX {
                    lemma_next_revision_id_fresh(old_store, key);
                }
                lemma_publish_keeps_ids_allocated(old_store, *self, key, self.plans@[key].head@);
            }
        }
        r
    }
}

/// The first lookup or freshness check that sealing revision `base` of
/// `plan` against `expected` fails.
pub open spec fn seal_admission_failure(store: MemoryPlanStore, plan: Seq<char>, base: Seq<char>, expected: Seq<char>) -> Option<ErrorCode> {
    if !store.plans@.contains_key(plan) {
        Some(ErrorCode::MemoryPlanNotFound)
    } else if !store.plans@[plan].revisions@.contains_key(base) {
        Some(ErrorCode::MemoryRevisionNotFound)
    } else if store.plans@[plan].head@ != base {
        Some(ErrorCode::StaleMemoryBase)
    } else if store.plans@[plan].revisions@[base].memory_hash.0@ != expected {
        Some(ErrorCode::MemoryHashMismatch)
    } else {
        None
    }
}

/// The first lookup or freshness check that forking revision `revision` of
/// `plan` against `expected` fails.
pub open spec fn fork_admission_failure(store: MemoryPlanStore, plan: Seq<char>, revision: Seq<char>, expected: Seq<char>) -> Option<ErrorCode> {
    if !store.plans@.contains_key(plan) {
        Some(ErrorCode::MemoryPlanNotFound)
    } else if !store.plans@[plan].revisions@.contains_key(revision) {
        Some(ErrorCode::MemoryRevisionNotFound)
    } else if store.plans@[plan].revisions@[revision].memory_hash.0@ != expected {
        Some(ErrorCode::MemoryHashMismatch)
    } else {
        None
    }
}

/// Whether a revision in this state may be sealed.
pub open spec fn sealable_status(s: MemoryStatus) -> bool {
    s == MemoryStatus::Proved || s == MemoryStatus::Guarded || s == MemoryStatus::Draft
}

impl MemoryPlanStore {
    /// Seals the structurally proved head revision `base_revision` of
    /// `plan_id` as a new immutable child revision; sealing an already
    /// sealed head only re-checks it. The store is unchanged on every error.
    pub fn seal<F: Fn(&MemoryPlan, &MemoryRevision) -> Vec<u8>>(
        &mut self,
        plan_id: &String,
        base_revision: &String,
        expected_memory_hash: &MemoryHash,
        implementation: &ImplProgram,
        limits: &ResourceLimits,
        candidate_event_cursor: u64,
        equality_event_cursor: u64,
        canonical: F,
    ) -> (r: AgentResult<MemoryCheckReport>)
        requires
            forall|p: &MemoryPlan, x: &MemoryRevision| canonical.requires((p, x)),
        ensures
            seal_admission_failure(*old(self), plan_id@, base_revision@, expected_memory_hash.0@) matches Some(c) ==> (r matches Err(e) && e.code == c),
            seal_admission_failure(*old(self), plan_id@, base_revision@, expected_memory_hash.0@) is None && ({
                let before = old(self).plans@[plan_id@];
                let base = before.revisions@[base_revision@];
                &&& revision_verifiable(*old(self), before, base, *implementation, *limits, canonical)
                &&& base.status == MemoryStatus::Sealed || sealable_status(base.status)
                &&& limits.memory_obligations >= 1
                &&& encodings_bounded(canonical, limits.memory_canonical_bytes)
                &&& store_budgets_hold(*old(self), 0, *limits)
                &&& access_total(base.program.operations.kv()) <= usize::MAX
            }) ==> r is Ok,
            r is Err ==> *final(self) == *old(self),
            r is Ok ==> ({
                let before = old(self).plans@[plan_id@];
                let base = before.revisions@[base_revision@];
                let after = final(self).plans@[plan_id@];
                let head = after.head@;
                &&& seal_admission_failure(*old(self), plan_id@, base_revision@, expected_memory_hash.0@) is None
                &&& revision_consistent(*old(self), before, base, *implementation, *limits)
                &&& base.status == MemoryStatus::Sealed ==> *final(self) == *old(self)
                &&& base.status != MemoryStatus::Sealed ==> {
                    &&& sealable_status(base.status)
                    &&& final(self).plans@ == old(self).plans@.insert(plan_id@, after)
                    &&& after.id == before.id && after.anchor == before.anchor && after.root_revision == before.root_revision
                    &&& final(self).allocator.counter(1) == sat_succ(old(self).allocator.counter(1))
                    &&& head == memory_id_prefix(1) + decimal(final(self).allocator.counter(1) as nat)
                    &&& after.revisions@ == before.revisions@.insert(head, after.revisions@[head])
                    &&& after.revisions@[head].status == MemoryStatus::Sealed
                    &&& after.revisions@[head].parents@.len() == 1
                    &&& after.revisions@[head].parents@[0]@ == base.id@
                    &&& after.revisions@[head].impl_hash.0@ == base.impl_hash.0@
                    &&& program_copied(base.program, after.revisions@[head].program)
                    &&& final(self).events@.len() == old(self).events@.len() + 1
                    &&& revision_ids_allocated(*old(self)) && old(self).allocator.counter(1) < u64::MAX ==> {
                        &&& !before.revisions@.contains_key(head)
                        &&& head != base_revision@
                    }
                }
                &&& revision_ids_allocated(*old(self)) ==> revision_ids_allocated(*final(self))
            }),
    {
        let ghost old_store = *self;
        let plan = match self.plans.get(plan_id.as_str()) {
            Some(p) => p,
            None => {
                return Err(AgentError::new(ErrorCode::MemoryPlanNotFound, "memory plan does not exist"));
            },
        };
        let base = match plan.revisions.get(base_revision.as_str()) {
            Some(b) => b,
            None => {
                return Err(AgentError::new(ErrorCode::MemoryRevisionNotFound, "memory revision does not exist"));
            },
        };
        if !str_eq(plan.head.as_str(), base_revision.as_str()) {
            return Err(AgentError::new(ErrorCode::StaleMemoryBase, "memory seal base is stale"));
        }
        if !str_eq(base.memory_hash.0.as_str(), expected_memory_hash.0.as_str()) {
            return Err(AgentError::new(ErrorCode::MemoryHashMismatch, "memory seal expected hash is stale"));
        }
        verify_revision_with(self, plan, base, implementation, limits, &canonical)?;
        if base.status == MemoryStatus::Sealed {
            return self.check(plan_id.as_str(), base_revision.as_str(), implementation, limits, canonical);
        }
        if !(base.status == MemoryStatus::Proved || base.status == MemoryStatus::Guarded || base.status == MemoryStatus::Draft) {
            return Err(AgentError::new(ErrorCode::MemoryEquivalenceUnproved, "memory plan cannot be sealed before structural proof"));
        }
        let mut allocator = self.allocator.copy();
        let revision_id = allocator.revision();
        let mut next = MemoryRevision {
            id: revision_id,
            parents: vec![base.id.clone()],
            program: duplicate_program(&base.program),
            memory_hash: MemoryHash(base.memory_hash.0.clone()),
            impl_hash: ImplHash(base.impl_hash.0.clone()),
            status: MemoryStatus::Sealed,
            obligations: Vec::new(),
            certificates: Vec::new(),
            evidence: Vec::new(),
        };
        let record = attach_correctness(
            &mut allocator,
            plan,
            &mut next,
            Some(MemoryHash(base.memory_hash.0.clone())),
            MemoryEvidenceKind::Sealing,
            String::from_str("seal_memory_plan_v1"),
            vec![String::from_str("MemoryEquivalentToImpl verified compositionally")],
            limits,
            &canonical,
        )?;
        check_store_budgets(self, 0, limits)?;
        if !accesses_countable(&next.program) {
            return Err(AgentError::new(ErrorCode::ResourceLimitExceeded, "memory access count exceeds the machine word"));
        }
        let event = VersionedMemoryEvent {
            semantics_version: MEMORY_EVENT_SEMANTICS_VERSION,
            candidate_event_cursor,
            equality_event_cursor,
            event: MemoryEvent::Sealed {
                memory_plan: plan_id.clone(),
                base_revision: base_revision.clone(),
                expected_memory_hash: MemoryHash(expected_memory_hash.0.clone()),
                memory_revision: next.id.clone(),
                memory_hash: MemoryHash(next.memory_hash.0.clone()),
            },
        };
        let r = self.publish_head(plan_id, next, record, event, allocator);
        proof {
            if revision_ids_allocated(old_store) {
                if old_store.allocator.counter(1) < u64::MAX {
                    lemma_next_revision_id_fresh(old_store, plan_id@);
                }
                lemma_publish_keeps_ids_allocated(old_store, *self, plan_id@, self.plans@[plan_id@].head@);
            }
        }
        r
    }

    /// Forks revision `parent_revision` of `parent_plan` into a new plan whose
    /// root is a copy of it; the store is unchanged on every error.
    pub fn fork<F: Fn(&MemoryPlan, &MemoryRevision) -> Vec<u8>>(
        &mut self,
        parent_plan: &String,
        parent_revision: &String,
        expected_memory_hash: &MemoryHash,
        implementation: &ImplProgram,
        limits: &ResourceLimits,
        candidate_event_cursor: u64,
        equality_event_cursor: u64,
        canonical: F,
    ) -> (r: AgentResult<MemoryCheckReport>)
        requires
            forall|p: &MemoryPlan, x: &MemoryRevision| canonical.requires((p, x)),
        ensures
            fork_admission_failure(*old(self), parent_plan@, parent_revision@, expected_memory_hash.0@) matches Some(c) ==> (r matches Err(e) && e.code == c),
            fork_admission_failure(*old(self), parent_plan@, parent_revision@, expected_memory_hash.0@) is None && ({
                let parent = old(self).plans@[parent_plan@];
                let source = parent.revisions@[parent_revision@];
                &&& revision_verifiable(*old(self), parent, source, *implementation, *limits, canonical)
                &&& limits.memory_obligations >= 1
                &&& encodings_bounded(canonical, limits.memory_canonical_bytes)
                &&& store_budgets_hold(*old(self), 1, *limits)
                &&& access_total(source.program.operations.kv()) <= usize::MAX
            }) ==> r is Ok,
            r is Err ==> *final(self) == *old(self),
            r is Ok ==> ({
                let parent = old(self).plans@[parent_plan@];
                let source = parent.revisions@[parent_revision@];
                let key = memory_id_prefix(0) + decimal(final(self).allocator.counter(0) as nat);
                let child = final(self).plans@[key];
                let root = child.head@;
                &&& fork_admission_failure(*old(self), parent_plan@, parent_revision@, expected_memory_hash.0@) is None
                &&& revision_consistent(*old(self), parent, source, *implementation, *limits)
                &&& final(self).allocator.counter(0) == sat_succ(old(self).allocator.counter(0))
                &&& final(self).allocator.counter(1) == sat_succ(old(self).allocator.counter(1))
                &&& final(self).plans@ == old(self).plans@.insert(key, child)
                &&& child.id@ == key
                &&& child.anchor == parent.anchor
                &&& root == memory_id_prefix(1) + decimal(final(self).allocator.counter(1) as nat)
                &&& child.root_revision@ == root
                &&& child.parent_plan matches Some(p) && p@ == parent_plan@
                &&& child.forked_from_revision matches Some(x) && x@ == parent_revision@
                &&& child.revisions@.dom() == set![root]
                &&& child.revisions@[root].parents@.len() == 0
                &&& child.revisions@[root].status == (if source.status == MemoryStatus::Sealed {
                    MemoryStatus::Draft
                } else {
                    source.status
                })
                &&& child.revisions@[root].impl_hash.0@ == source.impl_hash.0@
                &&& program_copied(source.program, child.revisions@[root].program)
                &&& final(self).events@.len() == old(self).events@.len() + 1
                &&& revision_ids_allocated(*old(self)) ==> revision_ids_allocated(*final(self))
            }),
    {
        let ghost old_store = *self;
        let parent = match self.plans.get(parent_plan.as_str()) {
            Some(p) => p,
            None => {
                return Err(AgentError::new(ErrorCode::MemoryPlanNotFound, "memory plan does not exist"));
            },
        };
        let source = match parent.revisions.get(parent_revision.as_str()) {
            Some(b) => b,
            None => {
                return Err(AgentError::new(ErrorCode::MemoryRevisionNotFound, "memory revision does not exist"));
            },
        };
        if !str_eq(source.memory_hash.0.as_str(), expected_memory_hash.0.as_str()) {
            return Err(AgentError::new(ErrorCode::MemoryHashMismatch, "memory fork expected hash is stale"));
        }
        verify_revision_with(self, parent, source, implementation, limits, &canonical)?;
        budget_against(
            limits.memory_plans_per_workspace,
            (self.plans.len() as u64).saturating_add(1),
            "memory fork before persistent ID allocation",
        )?;
        let mut allocator = self.allocator.copy();
        let plan_id = allocator.plan();
        let revision_id = allocator.revision();
        let status = if source.status == MemoryStatus::Sealed {
            MemoryStatus::Draft
        } else {
            source.status
        };
        let mut child_revision = MemoryRevision {
            id: revision_id.clone(),
            parents: Vec::new(),
            program: duplicate_program(&source.program),
            memory_hash: MemoryHash(source.memory_hash.0.clone()),
            impl_hash: ImplHash(source.impl_hash.0.clone()),
            status,
            obligations: Vec::new(),
            certificates: Vec::new(),
            evidence: Vec::new(),
        };
        let mut child = MemoryPlan {
            id: plan_id.clone(),
            anchor: copy_anchor(&parent.anchor),
            root_revision: revision_id.clone(),
            head: revision_id.clone(),
            revisions: IdMap::new(),
            parent_plan: Some(parent_plan.clone()),
            forked_from_revision: Some(parent_revision.clone()),
        };
        let record = attach_correctness(
            &mut allocator,
            &child,
            &mut child_revision,
            Some(MemoryHash(source.memory_hash.0.clone())),
            MemoryEvidenceKind::CompositionalMemoryVerification,
            String::from_str("forked_memory_plan_v1"),
            vec![String::from_str("immutable verified parent memory revision")],
            limits,
            &canonical,
        )?;
        check_store_budgets(self, 1, limits)?;
        if !accesses_countable(&child_revision.program) {
            return Err(AgentError::new(ErrorCode::ResourceLimitExceeded, "memory access count exceeds the machine word"));
        }
        let event = VersionedMemoryEvent {
            semantics_version: MEMORY_EVENT_SEMANTICS_VERSION,
            candidate_event_cursor,
            equality_event_cursor,
            event: MemoryEvent::Forked {
                parent_plan: parent_plan.clone(),
                parent_revision: parent_revision.clone(),
                memory_plan: plan_id.clone(),
                memory_revision: revision_id.clone(),
                memory_hash: MemoryHash(child_revision.memory_hash.0.clone()),
            },
        };
        child.revisions.insert(revision_id.clone(), child_revision);
        proof {
            assert(child.revisions@.dom() =~= set![revision_id@]);
        }
        self.plans.insert(plan_id.clone(), child);
        self.evidence.insert(record.id.clone(), record);
        self.events.push(event);
        self.allocator = allocator;
        proof {
            if revision_ids_allocated(old_store) {
                lemma_new_plan_keeps_ids_allocated(old_store, *self, plan_id@, revision_id@);
            }
        }
        let child_ref = match self.plans.get(plan_id.as_str()) {
            Some(p) => p,
            None => {
                return Err(AgentError::new(ErrorCode::MemoryPlanNotFound, "memory plan does not exist"));
            },
        };
        let revision_ref = match child_ref.revisions.get(revision_id.as_str()) {
            Some(x) => x,
            None => {
                return Err(AgentError::new(ErrorCode::MemoryRevisionNotFound, "memory revision does not exist"));
            },
        };
        let query = make_query(self, child_ref, revision_ref);
        let sealable = revision_ref.status == MemoryStatus::Proved || revision_ref.status == MemoryStatus::Guarded;
        Ok(MemoryCheckReport { query, well_typed: true, equivalent_to_impl: true, sealable })
    }
}

/// Whether every result of every operation of `p` is a defined value.
pub open spec fn results_all_defined(p: ImplProgram) -> bool {
    forall|o: Seq<char>, i: int|
        p.operations@.contains_key(o) && 0 <= i < p.operations@[o].results@.len() ==> p.values@.contains_key(
            (#[trigger] p.operations@[o].results@[i])@,
        )
}

/// Whether every program that fresh bufferization of `p` from the state `s`
/// may produce exists and is publishable: it names only what `p` defines,
/// passes verification and has countable accesses.
pub open spec fn fresh_publishable(p: ImplProgram, s: FreshV, limits: ResourceLimits) -> bool {
    forall|r: AgentResult<MemoryProgram>| #[trigger] fresh_result(p, s, r) ==> (r matches Ok(m) && program_names_defined(m, p)
        && memory_verdict(m, p, limits) is Ok && access_total(m.operations.kv()) <= usize::MAX)
}

fn all_results_defined(p: &ImplProgram) -> (r: bool)
    ensures
        r == results_all_defined(*p),
{
    let n = p.operations.len();
    let mut k: usize = 0;
    while k < n
        invariant
            k <= n,
            n == p.operations.kv().len(),
            sorted_kv(p.operations.kv()),
            forall|j: int, i: int| 0 <= j < k && 0 <= i < p.operations.kv()[j].1.results@.len() ==> p.values@.contains_key(
                (#[trigger] p.operations.kv()[j].1.results@[i])@,
            ),
        decreases n - k,
    {
        let (_, op) = p.operations.entry_at(k);
        let mut i: usize = 0;
        while i < op.results.len()
            invariant
                i <= op.results@.len(),
                k < n,
                n == p.operations.kv().len(),
                sorted_kv(p.operations.kv()),
                *op == p.operations.kv()[k as int].1,
                forall|x: int| 0 <= x < i ==> p.values@.contains_key((#[trigger] op.results@[x])@),
            decreases op.results.len() - i,
        {
            if !p.values.contains_key(op.results[i].as_str()) {
                proof {
                    lemma_kv_at(p.operations.kv(), k as int);
                    let o = p.operations.kv()[k as int].0;
                    assert(p.operations@[o].results@[i as int] == op.results@[i as int]);
                }
                return false;
            }
            i = i + 1;
        }
        k = k + 1;
    }
    proof {
        assert forall|o: Seq<char>, i: int|
            p.operations@.contains_key(o) && 0 <= i < p.operations@[o].results@.len() implies p.values@.contains_key(
                (#[trigger] p.operations@[o].results@[i])@,
            ) by {
            let kv = p.operations.kv();
            let j = choose|j: int| 0 <= j < kv.len() && #[trigger] kv[j].0 == o;
            lemma_kv_at(kv, j);
            assert(p.values@.contains_key(kv[j].1.results@[i]@));
        }
    }
    true
}

impl MemoryPlanStore {
    /// Creates a memory plan whose root revision is the conservative fresh
    /// bufferization of `implementation`, the verified ImplIR program of a
    /// fully proved candidate revision that `anchor` names. The store is
    /// unchanged on every error.
    pub fn create<F: Fn(&MemoryPlan, &MemoryRevision) -> Vec<u8>>(
        &mut self,
        anchor: MemoryAnchor,
        implementation: &ImplProgram,
        limits: &ResourceLimits,
        candidate_event_cursor: u64,
        equality_event_cursor: u64,
        canonical: F,
    ) -> (r: AgentResult<MemoryCheckReport>)
        requires
            forall|p: &MemoryPlan, x: &MemoryRevision| canonical.requires((p, x)),
        ensures
            old(self).plans.spec_len() >= limits.memory_plans_per_workspace && limits.memory_plans_per_workspace < u64::MAX
                ==> (r matches Err(e) && e.code == ErrorCode::ResourceLimitExceeded),
            r is Err ==> *final(self) == *old(self),
            ({
                let outcome = fresh_outcome(
                    *implementation,
                    old(self).allocator.counter(2),
                    old(self).allocator.counter(4),
                    old(self).allocator.counter(3),
                );
                &&& store_budgets_hold(*old(self), 1, *limits)
                &&& results_all_defined(*implementation)
                &&& outcome matches Ok(s) && fresh_publishable(*implementation, s, *limits)
                &&& limits.memory_obligations >= 1
                &&& encodings_bounded(canonical, limits.memory_canonical_bytes)
            }) ==> r is Ok,
            r is Ok ==> ({
                let key = memory_id_prefix(0) + decimal(final(self).allocator.counter(0) as nat);
                let plan = final(self).plans@[key];
                let root = plan.head@;
                &&& final(self).allocator.counter(0) == sat_succ(old(self).allocator.counter(0))
                &&& final(self).allocator.counter(1) == sat_succ(old(self).allocator.counter(1))
                &&& final(self).plans@ == old(self).plans@.insert(key, plan)
                &&& plan.id@ == key
                &&& plan.anchor == anchor
                &&& root == memory_id_prefix(1) + decimal(final(self).allocator.counter(1) as nat)
                &&& plan.root_revision@ == root
                &&& plan.parent_plan is None && plan.forked_from_revision is None
                &&& plan.revisions@.dom() == set![root]
                &&& plan.revisions@[root].parents@.len() == 0
                &&& plan.revisions@[root].status == MemoryStatus::Proved
                &&& plan.revisions@[root].impl_hash.0@ == anchor.impl_hash.0@
                &&& memory_verdict(plan.revisions@[root].program, *implementation, *limits) is Ok
                &&& fresh_outcome(
                    *implementation,
                    old(self).allocator.counter(2),
                    old(self).allocator.counter(4),
                    old(self).allocator.counter(3),
                ) matches Ok(s) && fresh_result(*implementation, s, Ok::<MemoryProgram, AgentError>(plan.revisions@[root].program))
                &&& final(self).events@.len() == old(self).events@.len() + 1
                &&& revision_ids_allocated(*old(self)) ==> revision_ids_allocated(*final(self))
            }),
    {
        let ghost old_store = *self;
        budget_against(
            limits.memory_plans_per_workspace,
            (self.plans.len() as u64).saturating_add(1),
            "memory.create before persistent ID allocation",
        )?;
        if !all_results_defined(implementation) {
            return Err(AgentError::new(ErrorCode::MemoryEquivalenceUnproved, "ImplIR operation result is not a defined value"));
        }
        proof {
            if dependencies_well_founded(*implementation) {
                lemma_least_closed(*implementation);
            }
        }
        let mut allocator = self.allocator.copy();
        let plan_id = allocator.plan();
        let revision_id = allocator.revision();
        let program = lower_fresh(implementation, &mut allocator)?;
        if !program_checkable(&program, implementation) {
            return Err(AgentError::new(ErrorCode::MemoryEquivalenceUnproved, "memory program names values or results outside the implementation"));
        }
        verify_memory_program(&program, implementation, limits)?;
        let mut revision = MemoryRevision {
            id: revision_id.clone(),
            parents: Vec::new(),
            program,
            memory_hash: MemoryHash(String::from_str("pending")),
            impl_hash: ImplHash(anchor.impl_hash.0.clone()),
            status: MemoryStatus::Proved,
            obligations: Vec::new(),
            certificates: Vec::new(),
            evidence: Vec::new(),
        };
        let candidate = anchor.candidate.clone();
        let candidate_revision = anchor.candidate_revision.clone();
        let mut plan = MemoryPlan {
            id: plan_id.clone(),
            anchor,
            root_revision: revision_id.clone(),
            head: revision_id.clone(),
            revisions: IdMap::new(),
            parent_plan: None,
            forked_from_revision: None,
        };
        let record = attach_correctness(
            &mut allocator,
            &plan,
            &mut revision,
            None,
            MemoryEvidenceKind::FreshBufferization,
            String::from_str("fresh_bufferization_v1"),
            vec![
                String::from_str("fully proved unconditional candidate anchor"),
                String::from_str("fresh buffer for every reachable tensor result"),
                String::from_str("compiler-owned alias and lifetime analysis"),
                String::from_str("MemoryEquivalentToImpl"),
            ],
            limits,
            &canonical,
        )?;
        check_store_budgets(self, 1, limits)?;
        if !accesses_countable(&revision.program) {
            return Err(AgentError::new(ErrorCode::ResourceLimitExceeded, "memory access count exceeds the machine word"));
        }
        let event = VersionedMemoryEvent {
            semantics_version: MEMORY_EVENT_SEMANTICS_VERSION,
            candidate_event_cursor,
            equality_event_cursor,
            event: MemoryEvent::Created {
                candidate,
                candidate_revision,
                memory_plan: plan_id.clone(),
                memory_revision: revision_id.clone(),
                memory_hash: MemoryHash(revision.memory_hash.0.clone()),
            },
        };
        plan.revisions.insert(revision_id.clone(), revision);
        proof {
            assert(plan.revisions@.dom() =~= set![revision_id@]);
        }
        self.plans.insert(plan_id.clone(), plan);
        self.evidence.insert(record.id.clone(), record);
        self.events.push(event);
        self.allocator = allocator;
        proof {
            if revision_ids_allocated(old_store) {
                lemma_new_plan_keeps_ids_allocated(old_store, *self, plan_id@, revision_id@);
            }
        }
        let plan_ref = match self.plans.get(plan_id.as_str()) {
            Some(p) => p,
            None => {
                return Err(AgentError::new(ErrorCode::MemoryPlanNotFound, "memory plan does not exist"));
            },
        };
        let revision_ref = match plan_ref.revisions.get(revision_id.as_str()) {
            Some(x) => x,
            None => {
                return Err(AgentError::new(ErrorCode::MemoryRevisionNotFound, "memory revision does not exist"));
            },
        };
        let query = make_query(self, plan_ref, revision_ref);
        Ok(MemoryCheckReport { query, well_typed: true, equivalent_to_impl: true, sealable: true })
    }
}

} // verus!
