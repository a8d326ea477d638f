//! Full verification of a MemoryIR program against its ImplIR source:
//! resource budgets, binding coverage, buffer typing and layouts, binding
//! kinds, operation order, freshness of the compiler-owned analyses, and
//! every result-storage decision.

use crate::dependency::{certifies, dependencies_well_founded, rank_decreasing, read_closed, reachable_impl_operations};
use crate::diagnostics::{AgentError, AgentResult, ErrorCode};
use crate::idmap::IdMap;
use crate::impl_ir::{contains_id, ids_contain, ImplProgram};
use crate::memory::{MemoryFallback, MemoryGuard, MemoryGuardPredicate};
use crate::memory_ir::{
    access_view, binding_view, bound_buffer, derive_alias_facts, derive_lifetime, expected_alias_facts,
    fact_view, is_derived_lifetime, layout_failure, lifetime_same, op_view, prove_static_reuse,
    reuse_failure, reuse_result_defined, spec_rebuilt_op, spec_static_allocation_bytes,
    static_allocation_bytes, strictly_increasing, verify_layout, rebuild_operation, AccessMode,
    AddressSpace, AliasFact, BufferAccess, Lifetime, MemoryBinding, MemoryBuffer, MemoryOperation,
    MemoryProgram, Ownership, ReuseDecision,
};
use crate::resources::{budget_against, ResourceLimits};
use crate::text::str_eq;
use crate::types::{Type, TypeV};
use vstd::prelude::*;

verus! {

/// `a + b`, saturated at `u64::MAX`.
pub open spec fn sat_add(a: u64, b: int) -> u64 {
    if a + b > u64::MAX {
        u64::MAX
    } else {
        (a + b) as u64
    }
}

/// The saturated number of accesses of the first `n` operations.
pub open spec fn access_total(kv: Seq<(Seq<char>, MemoryOperation)>, n: nat) -> u64
    decreases n,
{
    if n == 0 {
        0
    } else {
        sat_add(access_total(kv, (n - 1) as nat), kv[n - 1].1.accesses@.len() as int)
    }
}

/// The saturated number of lifetime uses of the first `n` buffers.
pub open spec fn lifetime_use_total(kv: Seq<(Seq<char>, MemoryBuffer)>, n: nat) -> u64
    decreases n,
{
    if n == 0 {
        0
    } else {
        sat_add(lifetime_use_total(kv, (n - 1) as nat), kv[n - 1].1.lifetime.uses@.len() as int)
    }
}

/// The saturated number of lifetime points (definition, last use, and an
/// output escape where there is one) of the first `n` buffers.
pub open spec fn lifetime_point_total(kv: Seq<(Seq<char>, MemoryBuffer)>, n: nat) -> u64
    decreases n,
{
    if n == 0 {
        0
    } else {
        sat_add(
            sat_add(lifetime_point_total(kv, (n - 1) as nat), 2),
            if kv[n - 1].1.lifetime.output_escape { 1 } else { 0 },
        )
    }
}

/// Whether the plan's sizes are within the configured budgets.
pub open spec fn within_budgets(m: MemoryProgram, l: ResourceLimits) -> bool {
    &&& m.buffers.spec_len() <= l.memory_buffers_per_plan
    &&& m.operations.spec_len() <= l.memory_operations_per_plan
    &&& access_total(m.operations.kv(), m.operations.spec_len()) <= l.memory_accesses_per_plan
    &&& m.alias_domains.spec_len() <= l.memory_alias_domains
    &&& m.alias_facts@.len() <= l.memory_alias_facts
    &&& lifetime_point_total(m.buffers.kv(), m.buffers.spec_len()) <= l.memory_lifetime_points
    &&& lifetime_use_total(m.buffers.kv(), m.buffers.spec_len()) <= l.memory_lifetime_uses
}

fn check_error(code: ErrorCode, message: &str) -> (r: AgentError)
    ensures
        r.code == code,
{
    AgentError::new(code, message)
}

fn check_plan_budgets(memory: &MemoryProgram, limits: &ResourceLimits) -> (r: AgentResult<()>)
    ensures
        r is Ok <==> within_budgets(*memory, *limits),
        r matches Err(e) ==> e.code == ErrorCode::ResourceLimitExceeded,
{
    let context = "MemoryIR verification";
    budget_against(limits.memory_buffers_per_plan, memory.buffers.len() as u64, context)?;
    budget_against(limits.memory_operations_per_plan, memory.operations.len() as u64, context)?;
    let n = memory.operations.len();
    let mut accesses: u64 = 0;
    let mut i: usize = 0;
    while i < n
        invariant
            n == memory.operations.kv().len(),
            i <= n,
            accesses == access_total(memory.operations.kv(), i as nat),
        decreases n - i,
    {
        let (_, operation) = memory.operations.entry_at(i);
        accesses = accesses.saturating_add(operation.accesses.len() as u64);
        i = i + 1;
    }
    budget_against(limits.memory_accesses_per_plan, accesses, context)?;
    budget_against(limits.memory_alias_domains, memory.alias_domains.len() as u64, context)?;
    budget_against(limits.memory_alias_facts, memory.alias_facts.len() as u64, context)?;
    let nb = memory.buffers.len();
    let mut uses: u64 = 0;
    let mut points: u64 = 0;
    let mut i: usize = 0;
    while i < nb
        invariant
            nb == memory.buffers.kv().len(),
            i <= nb,
            uses == lifetime_use_total(memory.buffers.kv(), i as nat),
            points == lifetime_point_total(memory.buffers.kv(), i as nat),
        decreases nb - i,
    {
        let (_, buffer) = memory.buffers.entry_at(i);
        uses = uses.saturating_add(buffer.lifetime.uses.len() as u64);
        let escape: u64 = if buffer.lifetime.output_escape { 1 } else { 0 };
        points = points.saturating_add(2).saturating_add(escape);
        i = i + 1;
    }
    budget_against(limits.memory_lifetime_points, points, context)?;
    budget_against(limits.memory_lifetime_uses, uses, context)?;
    Ok(())
}

/// The operations in every read-closed set: those the roots depend on.
pub open spec fn least_closed(p: ImplProgram) -> Set<Seq<char>> {
    Set::new(|o: Seq<char>| forall|c: Set<Seq<char>>| #[trigger] read_closed(p, c) ==> c.contains(o))
}

/// Whether `v` is a result of one of the operations `ops`.
pub open spec fn produced_by(p: ImplProgram, ops: Set<Seq<char>>, v: Seq<char>) -> bool {
    exists|o: Seq<char>| ops.contains(o) && #[trigger] ids_contain(p.operations@[o].results@, v)
}

/// The values that a memory plan binds: the results of the operations that
/// the roots depend on.
pub open spec fn expected_bindings(p: ImplProgram) -> Set<Seq<char>> {
    Set::new(|v: Seq<char>| produced_by(p, least_closed(p), v))
}

/// Whether the bindings cover exactly the results of the reached operations.
fn bindings_cover(memory: &MemoryProgram, program: &ImplProgram, reached: &IdMap<u64>) -> (r: bool)
    requires
        reached@.dom() == least_closed(*program),
        forall|o: Seq<char>| #[trigger] reached@.contains_key(o) ==> program.operations@.contains_key(o),
    ensures
        r == (memory.bindings@.dom() == expected_bindings(*program)),
{
    let nr = reached.len();
    let mut i: usize = 0;
    while i < nr
        invariant
            nr == reached.kv().len(),
            i <= nr,
            reached@.dom() == least_closed(*program),
            forall|o: Seq<char>| #[trigger] reached@.contains_key(o) ==> program.operations@.contains_key(o),
            forall|j: int, v: Seq<char>| 0 <= j < i && #[trigger] ids_contain(program.operations@[reached.kv()[j].0].results@, v)
                ==> memory.bindings@.contains_key(v),
        decreases nr - i,
    {
        let (key, _) = reached.entry_at(i);
        proof {
            crate::idmap::lemma_kv_at(reached.kv(), i as int);
        }
        let op = match program.operations.get(key.as_str()) {
            Some(op) => op,
            None => {
                return false;
            },
        };
        let mut k: usize = 0;
        while k < op.results.len()
            invariant
                k <= op.results@.len(),
                i < reached.kv().len(),
                reached@.contains_key(reached.kv()[i as int].0),
                reached@.dom() == least_closed(*program),
                *op == program.operations@[reached.kv()[i as int].0],
                forall|t: int| 0 <= t < k ==> memory.bindings@.contains_key((#[trigger] op.results@[t])@),
            decreases op.results.len() - k,
        {
            if !memory.bindings.contains_key(op.results[k].as_str()) {
                proof {
                    let v = op.results@[k as int]@;
                    assert(ids_contain(op.results@, v));
                    assert(reached@.contains_key(reached.kv()[i as int].0));
                    assert(produced_by(*program, least_closed(*program), v));
                    assert(expected_bindings(*program).contains(v));
                }
                return false;
            }
            k = k + 1;
        }
        proof {
            assert forall|j: int, v: Seq<char>| 0 <= j < i + 1 && #[trigger] ids_contain(program.operations@[reached.kv()[j].0].results@, v)
                implies memory.bindings@.contains_key(v) by {
                if j == i {
                    let t = choose|t: int| 0 <= t < op.results@.len() && (#[trigger] op.results@[t])@ == v;
                    assert(memory.bindings@.contains_key(op.results@[t]@));
                }
            }
        }
        i = i + 1;
    }
    let nb = memory.bindings.len();
    let mut b: usize = 0;
    while b < nb
        invariant
            nb == memory.bindings.kv().len(),
            nr == reached.kv().len(),
            b <= nb,
            reached@.dom() == least_closed(*program),
            forall|o: Seq<char>| #[trigger] reached@.contains_key(o) ==> program.operations@.contains_key(o),
            forall|t: int| 0 <= t < b ==> produced_by(*program, least_closed(*program), (#[trigger] memory.bindings.kv()[t]).0),
        decreases nb - b,
    {
        let (value, _) = memory.bindings.entry_at(b);
        let mut found = false;
        let mut i: usize = 0;
        while i < nr && !found
            invariant
                nr == reached.kv().len(),
                i <= nr,
                reached@.dom() == least_closed(*program),
                forall|o: Seq<char>| #[trigger] reached@.contains_key(o) ==> program.operations@.contains_key(o),
                found ==> produced_by(*program, least_closed(*program), value@),
                !found ==> forall|j: int| 0 <= j < i ==> !ids_contain(program.operations@[(#[trigger] reached.kv()[j]).0].results@, value@),
            decreases nr - i, (if found { 0int } else { 1int }),
        {
            let (key, _) = reached.entry_at(i);
            proof {
                crate::idmap::lemma_kv_at(reached.kv(), i as int);
            }
            match program.operations.get(key.as_str()) {
                Some(op) => {
                    if contains_id(&op.results, value.as_str()) {
                        found = true;
                    } else {
                        i = i + 1;
                    }
                },
                None => {
                    i = i + 1;
                },
            }
        }
        if !found {
            proof {
                assert(memory.bindings@.contains_key(value@)) by {
                    crate::idmap::lemma_kv_at(memory.bindings.kv(), b as int);
                }
                if produced_by(*program, least_closed(*program), value@) {
                    let o = choose|o: Seq<char>| least_closed(*program).contains(o) && #[trigger] ids_contain(program.operations@[o].results@, value@);
                    assert(reached@.contains_key(o));
                    let j = choose|j: int| 0 <= j < reached.kv().len() && #[trigger] reached.kv()[j].0 == o;
                    assert(!ids_contain(program.operations@[reached.kv()[j].0].results@, value@));
                }
                assert(!expected_bindings(*program).contains(value@));
            }
            return false;
        }
        b = b + 1;
    }
    proof {
        assert forall|v: Seq<char>| memory.bindings@.dom().contains(v) <==> expected_bindings(*program).contains(v) by {
            if memory.bindings@.contains_key(v) {
                let t = choose|t: int| 0 <= t < memory.bindings.kv().len() && #[trigger] memory.bindings.kv()[t].0 == v;
                assert(produced_by(*program, least_closed(*program), memory.bindings.kv()[t].0));
            }
            if expected_bindings(*program).contains(v) {
                let o = choose|o: Seq<char>| least_closed(*program).contains(o) && #[trigger] ids_contain(program.operations@[o].results@, v);
                assert(reached@.contains_key(o));
                let j = choose|j: int| 0 <= j < reached.kv().len() && #[trigger] reached.kv()[j].0 == o;
                assert(ids_contain(program.operations@[reached.kv()[j].0].results@, v));
            }
        }
        assert(memory.bindings@.dom() =~= expected_bindings(*program));
    }
    true
}

// ---------------------------------------------------------------------------
// Buffers.

/// The first typing failure of buffer `b` stored under key `id`.
pub open spec fn buffer_typing_failure(m: MemoryProgram, p: ImplProgram, id: Seq<char>, b: MemoryBuffer) -> Option<ErrorCode> {
    if b.id@ != id || !m.alias_domains@.contains_key(b.alias_domain@) {
        Some(ErrorCode::MemoryEquivalenceUnproved)
    } else if !p.values@.contains_key(b.source_value@) {
        Some(ErrorCode::MemoryEquivalenceUnproved)
    } else {
        match p.values@[b.source_value@].ty@ {
            TypeV::Tensor(element, shape) => if element != b.element_type || shape != b.shape@ {
                Some(ErrorCode::MemoryEquivalenceUnproved)
            } else {
                None
            },
            TypeV::Scalar(_) => Some(ErrorCode::MemoryEquivalenceUnproved),
        }
    }
}

/// The ownership failure of buffer `b`: external regions must be named and
/// read-only, constant regions read-only constant storage.
pub open spec fn ownership_failure(b: MemoryBuffer) -> Option<ErrorCode> {
    if b.ownership == Ownership::ExternalBorrowed && (b.access != AccessMode::ReadOnly || b.external_binding is None) {
        Some(ErrorCode::InvalidMemoryAccess)
    } else if b.ownership == Ownership::ConstantOwned && (b.access != AccessMode::ReadOnly
        || b.address_space != AddressSpace::Constant) {
        Some(ErrorCode::InvalidMemoryAccess)
    } else {
        None
    }
}

/// Checks one buffer and adds its static bytes to the running total.
pub open spec fn buffer_step(m: MemoryProgram, p: ImplProgram, l: ResourceLimits, id: Seq<char>, b: MemoryBuffer, total: u64) -> Result<u64, ErrorCode> {
    match buffer_typing_failure(m, p, id, b) {
        Some(c) => Err(c),
        None => match layout_failure(b, l) {
            Some(c) => Err(c),
            None => match spec_static_allocation_bytes(b) {
                Err(c) => Err(c),
                Ok(bytes) => {
                    let next: Result<u64, ErrorCode> = match bytes {
                        None => Ok(total),
                        Some(n) => if n > l.memory_allocation_bytes_per_buffer {
                            Err(ErrorCode::ResourceLimitExceeded)
                        } else if total + n > u64::MAX {
                            Err(ErrorCode::MemoryResourceLimit)
                        } else {
                            Ok((total + n) as u64)
                        },
                    };
                    match next {
                        Err(c) => Err(c),
                        Ok(t) => match ownership_failure(b) {
                            Some(c) => Err(c),
                            None => Ok(t),
                        },
                    }
                },
            },
        },
    }
}

/// Checks the buffers from position `k` on, in key order, from running total `total`.
pub open spec fn buffer_scan(m: MemoryProgram, p: ImplProgram, l: ResourceLimits, k: nat, total: u64) -> Result<u64, ErrorCode>
    decreases m.buffers.kv().len() - k,
{
    if k >= m.buffers.kv().len() {
        Ok(total)
    } else {
        match buffer_step(m, p, l, m.buffers.kv()[k as int].0, m.buffers.kv()[k as int].1, total) {
            Err(c) => Err(c),
            Ok(t) => buffer_scan(m, p, l, k + 1, t),
        }
    }
}

fn check_buffer(
    memory: &MemoryProgram,
    program: &ImplProgram,
    limits: &ResourceLimits,
    id: &str,
    buffer: &MemoryBuffer,
    total: u64,
) -> (r: AgentResult<u64>)
    ensures
        match buffer_step(*memory, *program, *limits, id@, *buffer, total) {
            Ok(t) => r == Ok::<u64, AgentError>(t),
            Err(c) => r matches Err(e) && e.code == c,
        },
{
    if !str_eq(buffer.id.as_str(), id) || !memory.alias_domains.contains_key(buffer.alias_domain.as_str()) {
        return Err(check_error(ErrorCode::MemoryEquivalenceUnproved, "buffer identity or alias domain is inconsistent"));
    }
    let source = match program.values.get(buffer.source_value.as_str()) {
        Some(v) => v,
        None => {
            return Err(check_error(ErrorCode::MemoryEquivalenceUnproved, "buffer source value is missing"));
        },
    };
    match &source.ty {
        Type::Tensor { element, shape } => {
            if *element != buffer.element_type || !shape.same(&buffer.shape) {
                return Err(check_error(ErrorCode::MemoryEquivalenceUnproved, "buffer element type or logical shape differs from ImplIR"));
            }
        },
        Type::Scalar(_) => {
            return Err(check_error(ErrorCode::MemoryEquivalenceUnproved, "scalar ImplIR value was materialized as a tensor buffer"));
        },
    }
    verify_layout(buffer, limits)?;
    let mut next = total;
    match static_allocation_bytes(buffer)? {
        Some(bytes) => {
            budget_against(limits.memory_allocation_bytes_per_buffer, bytes, "MemoryIR buffer allocation")?;
            next = match total.checked_add(bytes) {
                Some(t) => t,
                None => {
                    return Err(check_error(ErrorCode::MemoryResourceLimit, "total abstract allocation bytes overflowed u64"));
                },
            };
        },
        None => {},
    }
    let read_only = buffer.access == AccessMode::ReadOnly;
    if buffer.ownership == Ownership::ExternalBorrowed && (!read_only || buffer.external_binding.is_none()) {
        return Err(check_error(ErrorCode::InvalidMemoryAccess, "external borrowed input must be named and read-only"));
    }
    if buffer.ownership == Ownership::ConstantOwned && (!read_only || buffer.address_space != AddressSpace::Constant) {
        return Err(check_error(ErrorCode::InvalidMemoryAccess, "constant-owned buffer must be read-only constant storage"));
    }
    Ok(next)
}

fn check_buffers(memory: &MemoryProgram, program: &ImplProgram, limits: &ResourceLimits) -> (r: AgentResult<u64>)
    ensures
        match buffer_scan(*memory, *program, *limits, 0, 0) {
            Ok(t) => r == Ok::<u64, AgentError>(t),
            Err(c) => r matches Err(e) && e.code == c,
        },
{
    let n = memory.buffers.len();
    let mut total: u64 = 0;
    let mut k: usize = 0;
    while k < n
        invariant
            n == memory.buffers.kv().len(),
            k <= n,
            buffer_scan(*memory, *program, *limits, 0, 0) == buffer_scan(*memory, *program, *limits, k as nat, total),
        decreases n - k,
    {
        let (id, buffer) = memory.buffers.entry_at(k);
        total = check_buffer(memory, program, limits, id.as_str(), buffer, total)?;
        k = k + 1;
    }
    Ok(total)
}

// ---------------------------------------------------------------------------
// Binding kinds and operation order.

/// Binding `b` under key `v` names `v`, and its kind matches the value's type:
/// scalars stay scalar, tensors are bound to an active buffer.
pub open spec fn binding_consistent(m: MemoryProgram, p: ImplProgram, v: Seq<char>, b: MemoryBinding) -> bool {
    &&& b.value_id() == v
    &&& p.values@.contains_key(v)
    &&& match (p.values@[v].ty@, b) {
        (TypeV::Scalar(_), MemoryBinding::Scalar { .. }) => true,
        (TypeV::Tensor(_, _), MemoryBinding::Buffer { buffer, .. }) => m.buffers@.contains_key(buffer@),
        _ => false,
    }
}

/// Every binding is consistent.
pub open spec fn bindings_consistent(m: MemoryProgram, p: ImplProgram) -> bool {
    forall|i: int| 0 <= i < m.bindings.kv().len() ==>
        binding_consistent(m, p, (#[trigger] m.bindings.kv()[i]).0, m.bindings.kv()[i].1)
}

fn check_binding_kinds(memory: &MemoryProgram, program: &ImplProgram) -> (r: bool)
    requires
        forall|v: Seq<char>| #[trigger] memory.bindings@.contains_key(v) ==> program.values@.contains_key(v),
    ensures
        r == bindings_consistent(*memory, *program),
{
    let n = memory.bindings.len();
    let mut k: usize = 0;
    while k < n
        invariant
            n == memory.bindings.kv().len(),
            k <= n,
            forall|v: Seq<char>| #[trigger] memory.bindings@.contains_key(v) ==> program.values@.contains_key(v),
            forall|i: int| 0 <= i < k ==>
                binding_consistent(*memory, *program, (#[trigger] memory.bindings.kv()[i]).0, memory.bindings.kv()[i].1),
        decreases n - k,
    {
        let (value, binding) = memory.bindings.entry_at(k);
        proof {
            crate::idmap::lemma_kv_at(memory.bindings.kv(), k as int);
        }
        if !str_eq(binding.value().as_str(), value.as_str()) {
            return false;
        }
        let source = match program.values.get(value.as_str()) {
            Some(v) => v,
            None => {
                return false;
            },
        };
        let ok = match (&source.ty, binding) {
            (Type::Scalar(_), MemoryBinding::Scalar { .. }) => true,
            (Type::Tensor { .. }, MemoryBinding::Buffer { buffer, .. }) => memory.buffers.contains_key(buffer.as_str()),
            _ => false,
        };
        if !ok {
            return false;
        }
        k = k + 1;
    }
    true
}

/// The operation order lists every operation exactly once by count and
/// without repetition.
pub open spec fn order_complete(m: MemoryProgram) -> bool {
    &&& m.operation_order@.len() == m.operations.spec_len()
    &&& forall|i: int, j: int| 0 <= i < j < m.operation_order@.len() ==>
        (#[trigger] m.operation_order@[i])@ != (#[trigger] m.operation_order@[j])@
}

fn check_order(memory: &MemoryProgram) -> (r: bool)
    ensures
        r == order_complete(*memory),
{
    if memory.operation_order.len() != memory.operations.len() {
        return false;
    }
    let mut seen: IdMap<usize> = IdMap::new();
    let mut k: usize = 0;
    while k < memory.operation_order.len()
        invariant
            k <= memory.operation_order@.len(),
            forall|i: int, j: int| 0 <= i < j < k ==>
                (#[trigger] memory.operation_order@[i])@ != (#[trigger] memory.operation_order@[j])@,
            forall|v: Seq<char>| #[trigger] seen@.contains_key(v) ==>
                0 <= seen@[v] < k && memory.operation_order@[seen@[v] as int]@ == v,
            forall|i: int| 0 <= i < k ==> #[trigger] seen@.contains_key(memory.operation_order@[i]@),
        decreases memory.operation_order.len() - k,
    {
        let id = &memory.operation_order[k];
        if seen.contains_key(id.as_str()) {
            proof {
                let i = seen@[id@] as int;
                assert(memory.operation_order@[i]@ == memory.operation_order@[k as int]@);
            }
            return false;
        }
        seen.insert(id.clone(), k);
        k = k + 1;
    }
    true
}

// ---------------------------------------------------------------------------
// Freshness of the compiler-owned analyses.

/// Rebuilds the operations in order from position `k`: the first operation
/// that is missing, or whose rebuild fails.
pub open spec fn rebuild_scan(m: MemoryProgram, p: ImplProgram, k: nat) -> Option<ErrorCode>
    decreases m.operation_order@.len() - k,
{
    if k >= m.operation_order@.len() {
        None
    } else if !m.operations@.contains_key(m.operation_order@[k as int]@) {
        Some(ErrorCode::InvalidMemoryAccess)
    } else if spec_rebuilt_op(m, p, m.operations@[m.operation_order@[k as int]@]) is Err {
        Some(ErrorCode::MemoryEquivalenceUnproved)
    } else {
        rebuild_scan(m, p, k + 1)
    }
}

/// Every ordered operation equals its rebuild.
pub open spec fn operations_current(m: MemoryProgram, p: ImplProgram) -> bool {
    forall|k: int| 0 <= k < m.operation_order@.len() ==>
        spec_rebuilt_op(m, p, m.operations@[(#[trigger] m.operation_order@[k])@]) == Ok::<_, ErrorCode>(op_view(m.operations@[m.operation_order@[k]@]))
}

/// Every ImplIR output value is bound, and the memory outputs are those
/// bindings under the same names.
pub open spec fn outputs_current(m: MemoryProgram, p: ImplProgram) -> bool {
    &&& forall|i: int| 0 <= i < p.outputs.kv().len() ==> m.bindings@.contains_key((#[trigger] p.outputs.kv()[i]).1.value@)
    &&& m.outputs.kv().len() == p.outputs.kv().len()
    &&& forall|i: int| 0 <= i < m.outputs.kv().len() ==> {
        &&& (#[trigger] m.outputs.kv()[i]).0 == p.outputs.kv()[i].0
        &&& binding_view(m.outputs.kv()[i].1) == binding_view(m.bindings@[p.outputs.kv()[i].1.value@])
    }
}

/// The stored alias facts are the derived ones.
pub open spec fn facts_current(m: MemoryProgram) -> bool {
    m.alias_facts@.map_values(|f: AliasFact| fact_view(f)) == expected_alias_facts(m.buffers)
}

/// Every stored lifetime is the derived one.
pub open spec fn lifetimes_current(m: MemoryProgram, p: ImplProgram) -> bool {
    forall|i: int| 0 <= i < m.buffers.kv().len() ==>
        is_derived_lifetime(m, p, (#[trigger] m.buffers.kv()[i]).0, m.buffers.kv()[i].1, m.buffers.kv()[i].1.lifetime)
}

/// The failure of the analysis freshness check.
pub open spec fn analysis_failure(m: MemoryProgram, p: ImplProgram) -> Option<ErrorCode> {
    match rebuild_scan(m, p, 0) {
        Some(c) => Some(c),
        None => if operations_current(m, p) && outputs_current(m, p) && facts_current(m) && lifetimes_current(m, p) {
            None
        } else {
            Some(ErrorCode::MemoryEquivalenceUnproved)
        },
    }
}

fn binding_same(a: &MemoryBinding, b: &MemoryBinding) -> (r: bool)
    ensures
        r == (binding_view(*a) == binding_view(*b)),
{
    match (a, b) {
        (MemoryBinding::Scalar { value: x }, MemoryBinding::Scalar { value: y }) => str_eq(x.as_str(), y.as_str()),
        (MemoryBinding::Buffer { value: x, buffer: bx }, MemoryBinding::Buffer { value: y, buffer: by }) =>
            str_eq(x.as_str(), y.as_str()) && str_eq(bx.as_str(), by.as_str()),
        _ => false,
    }
}

fn bindings_same(a: &Vec<MemoryBinding>, b: &Vec<MemoryBinding>) -> (r: bool)
    ensures
        r == (a@.map_values(|x: MemoryBinding| binding_view(x)) == b@.map_values(|x: MemoryBinding| binding_view(x))),
{
    let ghost av = a@.map_values(|x: MemoryBinding| binding_view(x));
    let ghost bv = b@.map_values(|x: MemoryBinding| binding_view(x));
    if a.len() != b.len() {
        assert(av.len() != bv.len());
        return false;
    }
    let mut i: usize = 0;
    while i < a.len()
        invariant
            a@.len() == b@.len(),
            av == a@.map_values(|x: MemoryBinding| binding_view(x)),
            bv == b@.map_values(|x: MemoryBinding| binding_view(x)),
            i <= a@.len(),
            forall|j: int| 0 <= j < i ==> av[j] == bv[j],
        decreases a.len() - i,
    {
        if !binding_same(&a[i], &b[i]) {
            assert(av[i as int] != bv[i as int]);
            return false;
        }
        i = i + 1;
    }
    assert(av =~= bv);
    true
}

fn accesses_same(a: &Vec<BufferAccess>, b: &Vec<BufferAccess>) -> (r: bool)
    ensures
        r == (a@.map_values(|x: BufferAccess| access_view(x)) == b@.map_values(|x: BufferAccess| access_view(x))),
{
    let ghost av = a@.map_values(|x: BufferAccess| access_view(x));
    let ghost bv = b@.map_values(|x: BufferAccess| access_view(x));
    if a.len() != b.len() {
        assert(av.len() != bv.len());
        return false;
    }
    let mut i: usize = 0;
    while i < a.len()
        invariant
            a@.len() == b@.len(),
            av == a@.map_values(|x: BufferAccess| access_view(x)),
            bv == b@.map_values(|x: BufferAccess| access_view(x)),
            i <= a@.len(),
            forall|j: int| 0 <= j < i ==> av[j] == bv[j],
        decreases a.len() - i,
    {
        let x = &a[i];
        let y = &b[i];
        if !str_eq(x.buffer.as_str(), y.buffer.as_str()) || !str_eq(x.value.as_str(), y.value.as_str())
            || x.kind != y.kind || !str_eq(x.typed_index.as_str(), y.typed_index.as_str()) {
            assert(av[i as int] != bv[i as int]);
            return false;
        }
        i = i + 1;
    }
    assert(av =~= bv);
    true
}

fn operation_same(a: &MemoryOperation, b: &MemoryOperation) -> (r: bool)
    ensures
        r == (op_view(*a) == op_view(*b)),
{
    str_eq(a.id.as_str(), b.id.as_str()) && str_eq(a.impl_operation.as_str(), b.impl_operation.as_str())
        && str_eq(a.opcode.as_str(), b.opcode.as_str()) && bindings_same(&a.operands, &b.operands)
        && bindings_same(&a.results, &b.results) && accesses_same(&a.accesses, &b.accesses)
}

fn facts_same(a: &Vec<AliasFact>, b: &Vec<AliasFact>) -> (r: bool)
    ensures
        r == (a@.map_values(|x: AliasFact| fact_view(x)) == b@.map_values(|x: AliasFact| fact_view(x))),
{
    let ghost av = a@.map_values(|x: AliasFact| fact_view(x));
    let ghost bv = b@.map_values(|x: AliasFact| fact_view(x));
    if a.len() != b.len() {
        assert(av.len() != bv.len());
        return false;
    }
    let mut i: usize = 0;
    while i < a.len()
        invariant
            a@.len() == b@.len(),
            av == a@.map_values(|x: AliasFact| fact_view(x)),
            bv == b@.map_values(|x: AliasFact| fact_view(x)),
            i <= a@.len(),
            forall|j: int| 0 <= j < i ==> av[j] == bv[j],
        decreases a.len() - i,
    {
        let x = &a[i];
        let y = &b[i];
        if !str_eq(x.first.as_str(), y.first.as_str()) || !str_eq(x.second.as_str(), y.second.as_str())
            || x.relation != y.relation || x.provenance != y.provenance {
            assert(av[i as int] != bv[i as int]);
            return false;
        }
        i = i + 1;
    }
    assert(av =~= bv);
    true
}

fn u64s_same(a: &Vec<u64>, b: &Vec<u64>) -> (r: bool)
    ensures
        r == (a@ == b@),
{
    if a.len() != b.len() {
        return false;
    }
    let mut i: usize = 0;
    while i < a.len()
        invariant
            a@.len() == b@.len(),
            i <= a@.len(),
            forall|j: int| 0 <= j < i ==> a@[j] == b@[j],
        decreases a.len() - i,
    {
        if a[i] != b[i] {
            return false;
        }
        i = i + 1;
    }
    assert(a@ =~= b@);
    true
}

fn lifetime_equal(a: &Lifetime, b: &Lifetime) -> (r: bool)
    ensures
        r == lifetime_same(*a, *b),
{
    a.first_point == b.first_point && u64s_same(&a.uses, &b.uses) && a.last_use == b.last_use
        && a.output_escape == b.output_escape && a.external == b.external
        && a.deallocation_eligible == b.deallocation_eligible
}

/// Two strictly increasing sequences with the same elements are equal.
proof fn lemma_increasing_unique(a: Seq<u64>, b: Seq<u64>)
    requires
        strictly_increasing(a),
        strictly_increasing(b),
        a.to_set() == b.to_set(),
    ensures
        a == b,
    decreases a.len(),
{
    if a.len() == 0 {
        if b.len() > 0 {
            assert(b.to_set().contains(b[0]));
            assert(a.contains(b[0]));
        }
        assert(a =~= b);
    } else {
        assert(a.to_set().contains(a[0]));
        assert(b.contains(a[0]));
        let j = choose|j: int| 0 <= j < b.len() && b[j] == a[0];
        assert(b.to_set().contains(b[0]));
        assert(a.contains(b[0]));
        let i = choose|i: int| 0 <= i < a.len() && a[i] == b[0];
        if j > 0 {
            assert(b[0] < b[j]);
        }
        if i > 0 {
            assert(a[0] < a[i]);
        }
        assert(a[0] == b[0]);
        let a1 = a.drop_first();
        let b1 = b.drop_first();
        assert(strictly_increasing(a1)) by {
            assert forall|x: int, y: int| 0 <= x < y < a1.len() implies #[trigger] a1[x] < #[trigger] a1[y] by {
                assert(a[x + 1] < a[y + 1]);
            }
        }
        assert(strictly_increasing(b1)) by {
            assert forall|x: int, y: int| 0 <= x < y < b1.len() implies #[trigger] b1[x] < #[trigger] b1[y] by {
                assert(b[x + 1] < b[y + 1]);
            }
        }
        assert(a1.to_set() =~= b1.to_set()) by {
            assert forall|x: u64| a1.to_set().contains(x) <==> b1.to_set().contains(x) by {
                if a1.contains(x) {
                    let t = choose|t: int| 0 <= t < a1.len() && a1[t] == x;
                    assert(a[0] < a[t + 1]);
                    assert(a.to_set().contains(x));
                    let u = choose|u: int| 0 <= u < b.len() && b[u] == x;
                    assert(u != 0);
                    assert(b1[u - 1] == x);
                }
                if b1.contains(x) {
                    let t = choose|t: int| 0 <= t < b1.len() && b1[t] == x;
                    assert(b[0] < b[t + 1]);
                    assert(b.to_set().contains(x));
                    let u = choose|u: int| 0 <= u < a.len() && a[u] == x;
                    assert(u != 0);
                    assert(a1[u - 1] == x);
                }
            }
        }
        lemma_increasing_unique(a1, b1);
        assert(a =~= seq![a[0]] + a1);
        assert(b =~= seq![b[0]] + b1);
    }
}

fn check_lifetimes(memory: &MemoryProgram, program: &ImplProgram) -> (r: bool)
    ensures
        r == lifetimes_current(*memory, *program),
{
    let n = memory.buffers.len();
    let mut k: usize = 0;
    while k < n
        invariant
            n == memory.buffers.kv().len(),
            k <= n,
            forall|i: int| 0 <= i < k ==> is_derived_lifetime(*memory, *program, (#[trigger] memory.buffers.kv()[i]).0,
                memory.buffers.kv()[i].1, memory.buffers.kv()[i].1.lifetime),
        decreases n - k,
    {
        let (key, buffer) = memory.buffers.entry_at(k);
        let derived = derive_lifetime(memory, program, key.as_str(), buffer);
        if !lifetime_equal(&derived, &buffer.lifetime) {
            proof {
                if is_derived_lifetime(*memory, *program, key@, *buffer, buffer.lifetime) {
                    lemma_increasing_unique(derived.uses@, buffer.lifetime.uses@);
                }
            }
            return false;
        }
        k = k + 1;
    }
    true
}

fn check_outputs(memory: &MemoryProgram, program: &ImplProgram) -> (r: bool)
    ensures
        r == outputs_current(*memory, *program),
{
    let n = program.outputs.len();
    let mut k: usize = 0;
    while k < n
        invariant
            n == program.outputs.kv().len(),
            k <= n,
            forall|i: int| 0 <= i < k ==> memory.bindings@.contains_key((#[trigger] program.outputs.kv()[i]).1.value@),
        decreases n - k,
    {
        let (_, output) = program.outputs.entry_at(k);
        if !memory.bindings.contains_key(output.value.as_str()) {
            return false;
        }
        k = k + 1;
    }
    if memory.outputs.len() != n {
        return false;
    }
    let mut k: usize = 0;
    while k < n
        invariant
            n == program.outputs.kv().len(),
            n == memory.outputs.kv().len(),
            k <= n,
            forall|i: int| 0 <= i < n ==> memory.bindings@.contains_key((#[trigger] program.outputs.kv()[i]).1.value@),
            forall|i: int| 0 <= i < k ==> {
                &&& (#[trigger] memory.outputs.kv()[i]).0 == program.outputs.kv()[i].0
                &&& binding_view(memory.outputs.kv()[i].1) == binding_view(memory.bindings@[program.outputs.kv()[i].1.value@])
            },
        decreases n - k,
    {
        let (name, binding) = memory.outputs.entry_at(k);
        let (expected_name, output) = program.outputs.entry_at(k);
        if !str_eq(name.as_str(), expected_name.as_str()) {
            return false;
        }
        let bound = match memory.bindings.get(output.value.as_str()) {
            Some(b) => b,
            None => {
                return false;
            },
        };
        if !binding_same(binding, bound) {
            return false;
        }
        k = k + 1;
    }
    true
}

fn check_analysis(memory: &MemoryProgram, program: &ImplProgram) -> (r: AgentResult<()>)
    ensures
        match analysis_failure(*memory, *program) {
            None => r is Ok,
            Some(c) => r matches Err(e) && e.code == c,
        },
{
    let mut current = true;
    let mut k: usize = 0;
    while k < memory.operation_order.len()
        invariant
            k <= memory.operation_order@.len(),
            rebuild_scan(*memory, *program, 0) == rebuild_scan(*memory, *program, k as nat),
            current <==> (forall|j: int| 0 <= j < k ==>
                spec_rebuilt_op(*memory, *program, memory.operations@[(#[trigger] memory.operation_order@[j])@])
                    == Ok::<_, ErrorCode>(op_view(memory.operations@[memory.operation_order@[j]@]))),
        decreases memory.operation_order.len() - k,
    {
        let id = &memory.operation_order[k];
        let op = match memory.operations.get(id.as_str()) {
            Some(op) => op,
            None => {
                return Err(check_error(ErrorCode::InvalidMemoryAccess, "memory operation order references a missing operation"));
            },
        };
        let rebuilt = match rebuild_operation(memory, program, op) {
            Ok(x) => x,
            Err(e) => {
                return Err(e);
            },
        };
        if !operation_same(&rebuilt, op) {
            current = false;
        }
        k = k + 1;
    }
    let facts = derive_alias_facts(&memory.buffers);
    if !current || !check_outputs(memory, program) || !facts_same(&memory.alias_facts, &facts)
        || !check_lifetimes(memory, program) {
        return Err(check_error(ErrorCode::MemoryEquivalenceUnproved, "compiler-owned access, lifetime, or alias analysis is stale"));
    }
    Ok(())
}

// ---------------------------------------------------------------------------
// Result storage decisions.

/// The metadata on which a NoOverlap guard depends, in order.
pub open spec fn guard_dependencies() -> Seq<Seq<char>> {
    seq!["offset_elements"@, "shape"@, "strides"@, "element_type"@]
}

/// Whether a guarded reuse of `buffer` for `result` is internally consistent.
pub open spec fn guard_consistent(m: MemoryProgram, result: Seq<char>, buffer: Seq<char>, guard: MemoryGuard, fallback: MemoryFallback) -> bool {
    &&& bound_buffer(m, result) == Some(buffer)
    &&& fallback.result@ == result
    &&& fallback.fresh_buffer.source_value@ == result
    &&& guard.primary_buffer@ == buffer
    &&& guard.predicate == MemoryGuardPredicate::NoOverlap
    &&& guard.primary_buffer@ != guard.other_buffer@
    &&& m.buffers@.contains_key(guard.other_buffer@)
    &&& guard.dependencies@.map_values(|s: String| s@) == guard_dependencies()
}

/// The failure of the storage decision `d` for `result`.
pub open spec fn decision_failure(m: MemoryProgram, p: ImplProgram, l: ResourceLimits, result: Seq<char>, d: ReuseDecision) -> Option<ErrorCode> {
    match d {
        ReuseDecision::Fresh { buffer } => if bound_buffer(m, result) == Some(buffer@)
            && m.fresh_baseline_buffers@.contains_key(result) && m.fresh_baseline_buffers@[result].id@ == buffer@ {
            None
        } else {
            Some(ErrorCode::MemoryEquivalenceUnproved)
        },
        ReuseDecision::InPlace { input, buffer, .. } => if bound_buffer(m, result) != Some(buffer@)
            || bound_buffer(m, input@) != Some(buffer@) {
            Some(ErrorCode::MemoryEquivalenceUnproved)
        } else {
            reuse_failure(m, p, input@, result)
        },
        ReuseDecision::Guarded { input, buffer, guard, fallback, .. } => if guard.dependencies@.len() > l.memory_guard_dependencies
            || l.memory_guard_depth < 1 || l.memory_fallback_depth < 1 {
            Some(ErrorCode::ResourceLimitExceeded)
        } else if !guard_consistent(m, result, buffer@, *guard, *fallback) {
            Some(ErrorCode::MemoryGuardInvalid)
        } else {
            reuse_failure(m, p, input@, result)
        },
    }
}

/// Checks the decisions from position `k` on, in key order.
pub open spec fn reuse_scan(m: MemoryProgram, p: ImplProgram, l: ResourceLimits, k: nat) -> Option<ErrorCode>
    decreases m.reuse_decisions.kv().len() - k,
{
    if k >= m.reuse_decisions.kv().len() {
        None
    } else {
        match decision_failure(m, p, l, m.reuse_decisions.kv()[k as int].0, m.reuse_decisions.kv()[k as int].1) {
            Some(c) => Some(c),
            None => reuse_scan(m, p, l, k + 1),
        }
    }
}

/// The reuse results whose proofs are attempted have ordered defining
/// operations that exist.
pub open spec fn reuse_results_defined(m: MemoryProgram, p: ImplProgram) -> bool {
    forall|i: int| 0 <= i < m.reuse_decisions.kv().len() && !((#[trigger] m.reuse_decisions.kv()[i]).1 is Fresh)
        ==> reuse_result_defined(p, m.reuse_decisions.kv()[i].0)
}

fn bound_buffer_is(memory: &MemoryProgram, value: &str, buffer: &str) -> (r: bool)
    ensures
        r == (bound_buffer(*memory, value@) == Some(buffer@)),
{
    match memory.bindings.get(value) {
        Some(b) => match b.buffer() {
            Some(id) => str_eq(id.as_str(), buffer),
            None => false,
        },
        None => false,
    }
}

fn dependencies_match(deps: &Vec<String>) -> (r: bool)
    ensures
        r == (deps@.map_values(|s: String| s@) == guard_dependencies()),
{
    let ghost dv = deps@.map_values(|s: String| s@);
    if deps.len() != 4 {
        assert(dv.len() != guard_dependencies().len());
        return false;
    }
    let ok = str_eq(deps[0].as_str(), "offset_elements") && str_eq(deps[1].as_str(), "shape")
        && str_eq(deps[2].as_str(), "strides") && str_eq(deps[3].as_str(), "element_type");
    proof {
        reveal_strlit("offset_elements");
        reveal_strlit("shape");
        reveal_strlit("strides");
        reveal_strlit("element_type");
        if ok {
            assert(dv =~= guard_dependencies());
        } else {
            if dv == guard_dependencies() {
                assert(dv[0] == guard_dependencies()[0]);
                assert(dv[1] == guard_dependencies()[1]);
                assert(dv[2] == guard_dependencies()[2]);
                assert(dv[3] == guard_dependencies()[3]);
            }
        }
    }
    ok
}

fn check_decision(
    memory: &MemoryProgram,
    program: &ImplProgram,
    limits: &ResourceLimits,
    result: &str,
    decision: &ReuseDecision,
) -> (r: AgentResult<()>)
    requires
        !(decision is Fresh) ==> reuse_result_defined(*program, result@),
    ensures
        match decision_failure(*memory, *program, *limits, result@, *decision) {
            None => r is Ok,
            Some(c) => r matches Err(e) && e.code == c,
        },
{
    match decision {
        ReuseDecision::Fresh { buffer } => {
            let fresh_ok = match memory.fresh_baseline_buffers.get(result) {
                Some(fresh) => str_eq(fresh.id.as_str(), buffer.as_str()),
                None => false,
            };
            if !bound_buffer_is(memory, result, buffer.as_str()) || !fresh_ok {
                return Err(check_error(ErrorCode::MemoryEquivalenceUnproved, "fresh reuse decision disagrees with result binding"));
            }
            Ok(())
        },
        ReuseDecision::InPlace { input, buffer, .. } => {
            if !bound_buffer_is(memory, result, buffer.as_str()) || !bound_buffer_is(memory, input.as_str(), buffer.as_str()) {
                return Err(check_error(ErrorCode::MemoryEquivalenceUnproved, "in-place decision does not bind input and result to one region"));
            }
            match prove_static_reuse(memory, program, input.as_str(), result) {
                Ok(_) => Ok(()),
                Err(e) => Err(e),
            }
        },
        ReuseDecision::Guarded { input, buffer, guard, fallback, .. } => {
            let context = "MemoryIR guarded reuse verification";
            budget_against(limits.memory_guard_dependencies, guard.dependencies.len() as u64, context)?;
            budget_against(limits.memory_guard_depth, 1, context)?;
            budget_against(limits.memory_fallback_depth, 1, context)?;
            if !bound_buffer_is(memory, result, buffer.as_str()) || !str_eq(fallback.result.as_str(), result)
                || !str_eq(fallback.fresh_buffer.source_value.as_str(), result)
                || !str_eq(guard.primary_buffer.as_str(), buffer.as_str())
                || guard.predicate != MemoryGuardPredicate::NoOverlap
                || str_eq(guard.primary_buffer.as_str(), guard.other_buffer.as_str())
                || !memory.buffers.contains_key(guard.other_buffer.as_str())
                || !dependencies_match(&guard.dependencies) {
                return Err(check_error(ErrorCode::MemoryGuardInvalid, "guarded reuse contract is inconsistent"));
            }
            match prove_static_reuse(memory, program, input.as_str(), result) {
                Ok(_) => Ok(()),
                Err(e) => Err(e),
            }
        },
    }
}

fn check_decisions(memory: &MemoryProgram, program: &ImplProgram, limits: &ResourceLimits) -> (r: AgentResult<()>)
    requires
        reuse_results_defined(*memory, *program),
    ensures
        match reuse_scan(*memory, *program, *limits, 0) {
            None => r is Ok,
            Some(c) => r matches Err(e) && e.code == c,
        },
{
    let n = memory.reuse_decisions.len();
    let mut k: usize = 0;
    while k < n
        invariant
            n == memory.reuse_decisions.kv().len(),
            k <= n,
            reuse_results_defined(*memory, *program),
            reuse_scan(*memory, *program, *limits, 0) == reuse_scan(*memory, *program, *limits, k as nat),
        decreases n - k,
    {
        let (result, decision) = memory.reuse_decisions.entry_at(k);
        check_decision(memory, program, limits, result.as_str(), decision)?;
        k = k + 1;
    }
    Ok(())
}

// ---------------------------------------------------------------------------
// The full verification.

/// The verdict of MemoryIR verification: the first failing check, in order.
pub open spec fn memory_verdict(m: MemoryProgram, p: ImplProgram, l: ResourceLimits) -> Result<(), ErrorCode> {
    if !within_budgets(m, l) {
        Err(ErrorCode::ResourceLimitExceeded)
    } else if !dependencies_well_founded(p) {
        Err(ErrorCode::MemoryEquivalenceUnproved)
    } else if m.bindings@.dom() != expected_bindings(p) {
        Err(ErrorCode::MemoryEquivalenceUnproved)
    } else {
        match buffer_scan(m, p, l, 0, 0) {
            Err(c) => Err(c),
            Ok(total) => if total > l.memory_total_allocation_bytes {
                Err(ErrorCode::ResourceLimitExceeded)
            } else if !bindings_consistent(m, p) {
                Err(ErrorCode::MemoryEquivalenceUnproved)
            } else if !order_complete(m) {
                Err(ErrorCode::MemoryEquivalenceUnproved)
            } else {
                match analysis_failure(m, p) {
                    Some(c) => Err(c),
                    None => match reuse_scan(m, p, l, 0) {
                        Some(c) => Err(c),
                        None => Ok(()),
                    },
                }
            },
        }
    }
}

/// Verification reaches the binding-kind check.
pub open spec fn binding_kinds_reached(m: MemoryProgram, p: ImplProgram, l: ResourceLimits) -> bool {
    &&& within_budgets(m, l)
    &&& dependencies_well_founded(p)
    &&& m.bindings@.dom() == expected_bindings(p)
    &&& buffer_scan(m, p, l, 0, 0) matches Ok(total) && total <= l.memory_total_allocation_bytes
}

/// Verification reaches the storage decisions.
pub open spec fn decisions_reached(m: MemoryProgram, p: ImplProgram, l: ResourceLimits) -> bool {
    &&& binding_kinds_reached(m, p, l)
    &&& bindings_consistent(m, p)
    &&& order_complete(m)
    &&& analysis_failure(m, p) is None
}

/// Fully verifies MemoryIR types, accesses, lifetimes, aliases, and resource bounds.
pub fn verify_memory_program(
    memory: &MemoryProgram,
    implementation: &ImplProgram,
    limits: &ResourceLimits,
) -> (r: AgentResult<()>)
    requires
        binding_kinds_reached(*memory, *implementation, *limits) ==>
            forall|v: Seq<char>| #[trigger] memory.bindings@.contains_key(v) ==> implementation.values@.contains_key(v),
        decisions_reached(*memory, *implementation, *limits) ==> reuse_results_defined(*memory, *implementation),
    ensures
        match memory_verdict(*memory, *implementation, *limits) {
            Ok(()) => r is Ok,
            Err(c) => r matches Err(e) && e.code == c,
        },
{
    check_plan_budgets(memory, limits)?;
    let reached = reachable_impl_operations(implementation)?;
    proof {
        let d = reached@.dom();
        let rank = |o: Seq<char>| reached@[o] as nat;
        assert(certifies(*implementation, (d, rank)));
        assert(d =~= least_closed(*implementation)) by {
            assert forall|o: Seq<char>| d.contains(o) implies least_closed(*implementation).contains(o) by {
                assert forall|c: Set<Seq<char>>| #[trigger] read_closed(*implementation, c) implies c.contains(o) by {
                    assert(d.subset_of(c));
                }
            }
        }
    }
    if !bindings_cover(memory, implementation, &reached) {
        return Err(check_error(ErrorCode::MemoryEquivalenceUnproved, "MemoryIR bindings do not cover exactly the reachable ImplIR values"));
    }
    let total = check_buffers(memory, implementation, limits)?;
    budget_against(limits.memory_total_allocation_bytes, total, "MemoryIR total abstract allocation")?;
    if !check_binding_kinds(memory, implementation) {
        return Err(check_error(ErrorCode::MemoryEquivalenceUnproved, "MemoryIR scalar/buffer binding kind differs from ImplIR type"));
    }
    if !check_order(memory) {
        return Err(check_error(ErrorCode::MemoryEquivalenceUnproved, "memory operation order is incomplete or duplicated"));
    }
    check_analysis(memory, implementation)?;
    check_decisions(memory, implementation, limits)?;
    Ok(())
}

} // verus!
