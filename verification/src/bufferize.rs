//! Fresh conservative bufferization of an implementation and the
//! recomputation of a memory plan's compiler-owned analyses.

use crate::diagnostics::{AgentError, AgentResult, ErrorCode};
use crate::idmap::{sorted_kv, IdMap};
use crate::impl_ir::ImplProgram;
use crate::memory_check::{analysis_failure, facts_current, lifetimes_current, operations_current, outputs_current, rebuild_scan};
use crate::memory_ir::{
    binding_view, is_derived_lifetime, lifetimes_recomputed, same_except_lifetime, op_view, recompute_alias_facts, recompute_lifetimes, rebuild_operation,
    spec_rebuilt_op, MemoryBinding, MemoryOperation, MemoryProgram,
};
use crate::text::seq_less;
use vstd::prelude::*;

verus! {

/// Whether two memory programs agree on everything but their operations and outputs.
pub open spec fn same_but_operations(a: MemoryProgram, b: MemoryProgram) -> bool {
    &&& a.bindings == b.bindings
    &&& a.buffers == b.buffers
    &&& a.fresh_baseline_buffers == b.fresh_baseline_buffers
    &&& a.operation_order == b.operation_order
    &&& a.operation_for_impl == b.operation_for_impl
    &&& a.alias_domains == b.alias_domains
    &&& a.alias_facts == b.alias_facts
    &&& a.reuse_decisions == b.reuse_decisions
}

/// Every implementation output value is bound.
pub open spec fn outputs_bound(m: MemoryProgram, p: ImplProgram) -> bool {
    forall|i: int| 0 <= i < p.outputs.kv().len() ==> m.bindings@.contains_key((#[trigger] p.outputs.kv()[i]).1.value@)
}

/// Whether some position of the operation order names `key`.
pub open spec fn ordered(m: MemoryProgram, key: Seq<char>) -> bool {
    exists|k: int| 0 <= k < m.operation_order@.len() && (#[trigger] m.operation_order@[k])@ == key
}

/// Whether `b`'s operations are `a`'s, each ordered one replaced by its
/// rebuild from the implementation and the bindings of `a`.
pub open spec fn ops_rebuilt(a: MemoryProgram, b: MemoryProgram, p: ImplProgram) -> bool {
    &&& b.operations@.dom() == a.operations@.dom()
    &&& forall|k: int|
        0 <= k < a.operation_order@.len() ==> spec_rebuilt_op(a, p, a.operations@[(#[trigger] a.operation_order@[k])@])
            == Ok::<_, ErrorCode>(op_view(b.operations@[a.operation_order@[k]@]))
    &&& forall|key: Seq<char>| #[trigger] a.operations@.contains_key(key) && !ordered(a, key) ==> b.operations@[key] == a.operations@[key]
}

fn memory_error(code: ErrorCode, message: &str) -> (r: AgentError)
    ensures
        r.code == code,
{
    AgentError::new(code, message)
}

proof fn lemma_scan_clean(m: MemoryProgram, p: ImplProgram, k: nat)
    requires
        forall|i: int| 0 <= i < m.operation_order@.len() ==> m.operations@.contains_key((#[trigger] m.operation_order@[i])@),
        operations_current(m, p),
    ensures
        rebuild_scan(m, p, k) is None,
    decreases m.operation_order@.len() - k,
{
    if k < m.operation_order@.len() {
        assert(m.operations@.contains_key(m.operation_order@[k as int]@));
        assert(spec_rebuilt_op(m, p, m.operations@[m.operation_order@[k as int]@]) is Ok);
        lemma_scan_clean(m, p, k + 1);
    }
}

/// Rebuilds every ordered memory operation's bindings and accesses from its
/// ImplIR source, and the memory outputs from the ImplIR outputs. On failure
/// the plan is left unchanged.
pub fn rebuild_operations(memory: &mut MemoryProgram, implementation: &ImplProgram) -> (r: AgentResult<()>)
    ensures
        match rebuild_scan(*old(memory), *implementation, 0) {
            Some(c) => (r matches Err(e) && e.code == c) && *final(memory) == *old(memory),
            None => if outputs_bound(*old(memory), *implementation) {
                &&& r is Ok
                &&& same_but_operations(*final(memory), *old(memory))
                &&& ops_rebuilt(*old(memory), *final(memory), *implementation)
                &&& operations_current(*final(memory), *implementation)
                &&& outputs_current(*final(memory), *implementation)
                &&& rebuild_scan(*final(memory), *implementation, 0) is None
            } else {
                (r matches Err(e) && e.code == ErrorCode::MemoryEquivalenceUnproved) && *final(memory) == *old(memory)
            },
        },
{
    let ghost m0 = *memory;
    let n = memory.operation_order.len();
    let mut rebuilt: Vec<MemoryOperation> = Vec::new();
    let mut k: usize = 0;
    while k < n
        invariant
            n == m0.operation_order@.len(),
            *memory == m0,
            k <= n,
            rebuilt@.len() == k,
            rebuild_scan(m0, *implementation, k as nat) == rebuild_scan(m0, *implementation, 0),
            forall|j: int| #![trigger m0.operation_order@[j]] #![trigger rebuilt@[j]]
                0 <= j < k ==> m0.operations@.contains_key(m0.operation_order@[j]@) && spec_rebuilt_op(
                    m0,
                    *implementation,
                    m0.operations@[m0.operation_order@[j]@],
                ) == Ok::<_, ErrorCode>(op_view(rebuilt@[j])),
        decreases n - k,
    {
        let op = match memory.operations.get(memory.operation_order[k].as_str()) {
            Some(o) => o,
            None => {
                return Err(memory_error(
                    ErrorCode::InvalidMemoryAccess,
                    "memory operation order references a missing operation",
                ));
            },
        };
        match rebuild_operation(memory, implementation, op) {
            Ok(x) => {
                let ghost prev = rebuilt@;
                rebuilt.push(x);
                proof {
                    assert(rebuilt@ == prev.push(x));
                    assert(rebuilt@[k as int] == x);
                    assert forall|j: int| 0 <= j < k + 1 implies m0.operations@.contains_key(m0.operation_order@[j]@)
                        && spec_rebuilt_op(m0, *implementation, m0.operations@[m0.operation_order@[j]@])
                        == Ok::<_, ErrorCode>(op_view(#[trigger] rebuilt@[j])) by {
                        if j < k {
                            assert(rebuilt@[j] == prev[j]);
                        }
                    }
                }
            },
            Err(e) => {
                return Err(e);
            },
        }
        k = k + 1;
    }
    let no = implementation.outputs.len();
    let mut outputs: IdMap<MemoryBinding> = IdMap::new();
    let mut t: usize = 0;
    while t < no
        invariant
            no == implementation.outputs.kv().len(),
            sorted_kv(implementation.outputs.kv()),
            *memory == m0,
            n == m0.operation_order@.len(),
            rebuilt@.len() == n,
            rebuild_scan(m0, *implementation, 0) is None,
            forall|i: int| 0 <= i < t ==> m0.bindings@.contains_key((#[trigger] implementation.outputs.kv()[i]).1.value@),
            forall|j: int| #![trigger m0.operation_order@[j]] #![trigger rebuilt@[j]]
                0 <= j < n ==> m0.operations@.contains_key(m0.operation_order@[j]@) && spec_rebuilt_op(
                    m0,
                    *implementation,
                    m0.operations@[m0.operation_order@[j]@],
                ) == Ok::<_, ErrorCode>(op_view(rebuilt@[j])),
            t <= no,
            outputs.kv().len() == t,
            forall|i: int|
                0 <= i < t ==> m0.bindings@.contains_key(implementation.outputs.kv()[i].1.value@) && (#[trigger] outputs.kv()[i]).0
                    == implementation.outputs.kv()[i].0 && binding_view(outputs.kv()[i].1) == binding_view(
                    m0.bindings@[implementation.outputs.kv()[i].1.value@],
                ),
        decreases no - t,
    {
        let (name, output) = implementation.outputs.entry_at(t);
        match memory.bindings.get(output.value.as_str()) {
            Some(b) => {
                proof {
                    if t > 0 {
                        assert(outputs.kv().last().0 == implementation.outputs.kv()[t - 1].0);
                        assert(seq_less(implementation.outputs.kv()[t - 1].0, implementation.outputs.kv()[t as int].0));
                    }
                }
                let ghost prev = outputs.kv();
                let c = b.copy();
                outputs.push_ordered(name.clone(), c);
                proof {
                    assert(outputs.kv() == prev.push((name@, c)));
                    assert forall|i: int| 0 <= i < t + 1 implies m0.bindings@.contains_key(implementation.outputs.kv()[i].1.value@)
                        && (#[trigger] outputs.kv()[i]).0 == implementation.outputs.kv()[i].0
                        && binding_view(outputs.kv()[i].1) == binding_view(m0.bindings@[implementation.outputs.kv()[i].1.value@]) by {
                        if i < t {
                            assert(outputs.kv()[i] == prev[i]);
                        }
                    }
                }
            },
            None => {
                proof {
                    assert(!m0.bindings@.contains_key(implementation.outputs.kv()[t as int].1.value@));
                    assert(!outputs_bound(m0, *implementation));
                }
                return Err(memory_error(ErrorCode::MemoryEquivalenceUnproved, "memory output binding is missing"));
            },
        }
        t = t + 1;
    }
    let mut j: usize = 0;
    let mut ops = rebuilt;
    let ghost all = rebuilt@;
    proof {
        assert(ops@ =~= all.skip(0));
    }
    while j < n
        invariant
            n == m0.operation_order@.len(),
            all.len() == n,
            j <= n,
            ops@ == all.skip(j as int),
            rebuild_scan(m0, *implementation, 0) is None,
            outputs_bound(m0, *implementation),
            outputs.kv().len() == implementation.outputs.kv().len(),
            forall|i: int|
                0 <= i < outputs.kv().len() ==> (#[trigger] outputs.kv()[i]).0 == implementation.outputs.kv()[i].0
                    && binding_view(outputs.kv()[i].1) == binding_view(m0.bindings@[implementation.outputs.kv()[i].1.value@]),
            same_but_operations(*memory, m0),
            memory.outputs == m0.outputs,
            memory.operations@.dom() == m0.operations@.dom(),
            forall|i: int| #![trigger m0.operation_order@[i]] #![trigger all[i]]
                0 <= i < n ==> m0.operations@.contains_key(m0.operation_order@[i]@) && spec_rebuilt_op(
                    m0,
                    *implementation,
                    m0.operations@[m0.operation_order@[i]@],
                ) == Ok::<_, ErrorCode>(op_view(all[i])),
            forall|i: int|
                0 <= i < j ==> spec_rebuilt_op(m0, *implementation, m0.operations@[(#[trigger] m0.operation_order@[i])@])
                    == Ok::<_, ErrorCode>(op_view(memory.operations@[m0.operation_order@[i]@])),
            forall|key: Seq<char>|
                #[trigger] m0.operations@.contains_key(key) && !ordered(m0, key) ==> memory.operations@[key]
                    == m0.operations@[key],
        decreases n - j,
    {
        let ghost before = ops@;
        let x = ops.remove(0);
        proof {
            assert(x == all[j as int]);
            assert(ops@ =~= all.skip(j + 1));
        }
        let key = memory.operation_order[j].clone();
        memory.operations.insert(key, x);
        proof {
            assert forall|i: int| 0 <= i < j + 1 implies spec_rebuilt_op(
                m0,
                *implementation,
                m0.operations@[(#[trigger] m0.operation_order@[i])@],
            ) == Ok::<_, ErrorCode>(op_view(memory.operations@[m0.operation_order@[i]@])) by {
                if i < j && m0.operation_order@[i]@ == m0.operation_order@[j as int]@ {
                    assert(op_view(memory.operations@[m0.operation_order@[i]@]) == op_view(all[j as int]));
                }
            }
            assert(memory.operations@.dom() =~= m0.operations@.dom());
            assert forall|key: Seq<char>| #[trigger] m0.operations@.contains_key(key) && !ordered(m0, key) implies memory.operations@[key]
                == m0.operations@[key] by {
                if key == m0.operation_order@[j as int]@ {
                    assert(ordered(m0, key));
                }
            }
        }
        j = j + 1;
    }
    memory.outputs = outputs;
    proof {
        assert forall|i: int| 0 <= i < n implies spec_rebuilt_op(
            *memory,
            *implementation,
            memory.operations@[(#[trigger] memory.operation_order@[i])@],
        ) == Ok::<_, ErrorCode>(op_view(memory.operations@[memory.operation_order@[i]@])) by {
            let x = memory.operations@[m0.operation_order@[i]@];
            let o = m0.operations@[m0.operation_order@[i]@];
            assert(spec_rebuilt_op(m0, *implementation, o) == Ok::<_, ErrorCode>(op_view(x)));
            assert(x.impl_operation@ == o.impl_operation@);
        }
        assert forall|i: int| 0 <= i < memory.operation_order@.len() implies memory.operations@.contains_key(
            (#[trigger] memory.operation_order@[i])@,
        ) by {
            assert(m0.operations@.contains_key(m0.operation_order@[i]@));
        }
        lemma_scan_clean(*memory, *implementation, 0);
    }
    Ok(())
}

proof fn lemma_scan_same_bindings(m1: MemoryProgram, m2: MemoryProgram, p: ImplProgram, k: nat)
    requires
        m1.bindings == m2.bindings,
        m1.operations == m2.operations,
        m1.operation_order == m2.operation_order,
    ensures
        rebuild_scan(m1, p, k) == rebuild_scan(m2, p, k),
    decreases m1.operation_order@.len() - k,
{
    if k < m1.operation_order@.len() {
        let o = m1.operations@[m1.operation_order@[k as int]@];
        assert(spec_rebuilt_op(m1, p, o) == spec_rebuilt_op(m2, p, o));
        lemma_scan_same_bindings(m1, m2, p, k + 1);
    }
}

/// Whether `b` is `a` with every buffer lifetime, the alias facts, the
/// operations and the outputs recomputed, and nothing else touched.
pub open spec fn same_but_analysis(a: MemoryProgram, b: MemoryProgram) -> bool {
    &&& a.bindings == b.bindings
    &&& a.fresh_baseline_buffers == b.fresh_baseline_buffers
    &&& a.operation_order == b.operation_order
    &&& a.operation_for_impl == b.operation_for_impl
    &&& a.alias_domains == b.alias_domains
    &&& a.reuse_decisions == b.reuse_decisions
    &&& a.operations@.dom() == b.operations@.dom()
    &&& a.buffers.kv().len() == b.buffers.kv().len()
    &&& forall|i: int| 0 <= i < a.buffers.kv().len() ==> {
        &&& (#[trigger] a.buffers.kv()[i]).0 == b.buffers.kv()[i].0
        &&& same_except_lifetime(a.buffers.kv()[i].1, b.buffers.kv()[i].1)
    }
}

/// Recomputes the compiler-owned operation accesses, outputs, buffer
/// lifetimes and alias facts of a memory plan from its implementation. On
/// success the plan passes the analysis freshness check; on failure it is
/// left unchanged.
pub fn rebuild_analysis(memory: &mut MemoryProgram, implementation: &ImplProgram) -> (r: AgentResult<()>)
    ensures
        match rebuild_scan(*old(memory), *implementation, 0) {
            Some(c) => (r matches Err(e) && e.code == c) && *final(memory) == *old(memory),
            None => if outputs_bound(*old(memory), *implementation) {
                &&& r is Ok
                &&& same_but_analysis(*old(memory), *final(memory))
                &&& ops_rebuilt(*old(memory), *final(memory), *implementation)
                &&& analysis_failure(*final(memory), *implementation) is None
            } else {
                (r matches Err(e) && e.code == ErrorCode::MemoryEquivalenceUnproved) && *final(memory) == *old(memory)
            },
        },
{
    let ghost m0 = *memory;
    rebuild_operations(memory, implementation)?;
    let ghost m1 = *memory;
    let buffers = recompute_lifetimes(memory, implementation);
    memory.buffers = buffers;
    recompute_alias_facts(memory);
    proof {
        let m2 = *memory;
        lemma_scan_same_bindings(m2, m1, *implementation, 0);
        assert forall|k: int| 0 <= k < m2.operation_order@.len() implies spec_rebuilt_op(
            m2,
            *implementation,
            m2.operations@[(#[trigger] m2.operation_order@[k])@],
        ) == Ok::<_, ErrorCode>(op_view(m2.operations@[m2.operation_order@[k]@])) by {
            let o = m1.operations@[m1.operation_order@[k]@];
            assert(spec_rebuilt_op(m2, *implementation, o) == spec_rebuilt_op(m1, *implementation, o));
        }
        assert forall|i: int| 0 <= i < m2.buffers.kv().len() implies is_derived_lifetime(
            m2,
            *implementation,
            (#[trigger] m2.buffers.kv()[i]).0,
            m2.buffers.kv()[i].1,
            m2.buffers.kv()[i].1.lifetime,
        ) by {
            assert(is_derived_lifetime(m1, *implementation, m1.buffers.kv()[i].0, m1.buffers.kv()[i].1, buffers.kv()[i].1.lifetime));
        }
    }
    Ok(())
}

} // verus!
