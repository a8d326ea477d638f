//! Fresh conservative bufferization: every reachable tensor result gets its
//! own contiguous plan-owned (or borrowed, or constant) buffer and alias
//! domain, every reachable computing operation a memory operation, and the
//! compiler-owned analyses are then recomputed.

use crate::bufferize::{ops_rebuilt, ordered, outputs_bound, rebuild_analysis, same_but_analysis};
use crate::dependency::{dependencies_well_founded, read_closed, reachable_impl_operations};
use crate::diagnostics::{AgentResult, ErrorCode};
use crate::idmap::IdMap;
use crate::impl_ir::ImplProgram;
use crate::ir::{opcode_text, Opcode};
use crate::memory::{memory_id_prefix, sat_succ, scalar_alignment, spec_scalar_alignment, MemoryAllocator};
use crate::memory_check::{analysis_failure, rebuild_scan};
use crate::memory_ir::{
    access_view, binding_view, bindings_of, contiguous_strides, op_view, spec_rebuilt_op, BufferAccess, spec_contiguous_strides, opt_view, AccessMode, AddressSpace, AliasDomain,
    AliasProvenance, Lifetime, MemoryBinding, MemoryBuffer, MemoryLayout, MemoryOperation, MemoryProgram,
    MemoryStrides, Ownership, ReuseDecision, StrideV,
};
use crate::text::{decimal, str_eq};
use crate::types::{DimV, ScalarType, Shape, Type, TypeV};
use vstd::prelude::*;

verus! {

/// The least set of operations closed under the parameters, the outputs and
/// the values that its operations read.
pub open spec fn least_closed(p: ImplProgram) -> Set<Seq<char>> {
    choose|c: Set<Seq<char>>| read_closed(p, c) && forall|d: Set<Seq<char>>| #[trigger] read_closed(p, d) ==> c.subset_of(d)
}

/// Every result of every operation in `c` is a defined value.
pub open spec fn results_defined_in(p: ImplProgram, c: Set<Seq<char>>) -> bool {
    forall|o: Seq<char>, i: int|
        c.contains(o) && 0 <= i < p.operations@[o].results@.len() ==> p.values@.contains_key(
            (#[trigger] p.operations@[o].results@[i])@,
        )
}

/// What fresh bufferization records for one tensor result.
pub struct FreshBufferV {
    /// The tensor value.
    pub value: Seq<char>,
    /// Element type.
    pub element: ScalarType,
    /// Logical shape.
    pub shape: Seq<DimV>,
    /// Contiguous row-major strides.
    pub strides: Seq<StrideV>,
    /// Defined by a parameter operation.
    pub parameter: bool,
    /// Defined by a constant operation.
    pub constant: bool,
    /// Alias domain of the buffer.
    pub domain: Seq<char>,
    /// First parameter name bound to the value.
    pub external: Option<Seq<char>>,
}

/// The plan that fresh bufferization builds, before its analyses.
pub struct FreshV {
    /// Binding of each value: the value and, for tensors, the buffer.
    pub bindings: Map<Seq<char>, (Seq<char>, Option<Seq<char>>)>,
    /// Buffers by identity.
    pub buffers: Map<Seq<char>, FreshBufferV>,
    /// Fresh baseline of each computed tensor value: buffer identity and buffer.
    pub baselines: Map<Seq<char>, (Seq<char>, FreshBufferV)>,
    /// Alias domains with their provenance.
    pub domains: Map<Seq<char>, AliasProvenance>,
    /// Fresh reuse decision of each computed tensor value: its buffer.
    pub reuse: Map<Seq<char>, Seq<char>>,
    /// Memory operation of each lowered implementation operation.
    pub op_for_impl: Map<Seq<char>, Seq<char>>,
    /// Memory operation order.
    pub order: Seq<Seq<char>>,
    /// Memory operations: implementation operation and opcode text.
    pub ops: Map<Seq<char>, (Seq<char>, Seq<char>)>,
    /// Buffer identity counter.
    pub buf_counter: u64,
    /// Alias-domain identity counter.
    pub dom_counter: u64,
    /// Memory-operation identity counter.
    pub op_counter: u64,
}

/// The empty plan with the given counters.
pub open spec fn fresh_start(buf: u64, dom: u64, op: u64) -> FreshV {
    FreshV {
        bindings: Map::empty(),
        buffers: Map::empty(),
        baselines: Map::empty(),
        domains: Map::empty(),
        reuse: Map::empty(),
        op_for_impl: Map::empty(),
        order: Seq::empty(),
        ops: Map::empty(),
        buf_counter: buf,
        dom_counter: dom,
        op_counter: op,
    }
}

/// The name of the first parameter (in name order, from position `i`) bound to `v`.
pub open spec fn first_parameter(kv: Seq<(Seq<char>, String)>, v: Seq<char>, i: nat) -> Option<Seq<char>>
    decreases kv.len() - i,
{
    if i >= kv.len() {
        None
    } else if kv[i as int].1@ == v {
        Some(kv[i as int].0)
    } else {
        first_parameter(kv, v, i + 1)
    }
}

/// Records one result value of an operation.
pub open spec fn fresh_value(p: ImplProgram, s: FreshV, v: Seq<char>, parameter: bool, constant: bool) -> Result<FreshV, ErrorCode> {
    match p.values@[v].ty@ {
        TypeV::Scalar(_) => Ok(FreshV { bindings: s.bindings.insert(v, (v, None)), ..s }),
        TypeV::Tensor(e, dims) => {
            let bc = sat_succ(s.buf_counter);
            let b = memory_id_prefix(2) + decimal(bc as nat);
            let dc = sat_succ(s.dom_counter);
            let d = memory_id_prefix(4) + decimal(dc as nat);
            match spec_contiguous_strides(dims) {
                Err(c) => Err(c),
                Ok(st) => {
                    let f = FreshBufferV {
                        value: v,
                        element: e,
                        shape: dims,
                        strides: st,
                        parameter,
                        constant,
                        domain: d,
                        external: first_parameter(p.parameters.kv(), v, 0),
                    };
                    let computed = !parameter && !constant;
                    Ok(FreshV {
                        bindings: s.bindings.insert(v, (v, Some(b))),
                        buffers: s.buffers.insert(b, f),
                        baselines: if computed { s.baselines.insert(v, (b, f)) } else { s.baselines },
                        domains: s.domains.insert(
                            d,
                            if parameter { AliasProvenance::ProvedFromExternalContract } else { AliasProvenance::ProvedFromRegionConstruction },
                        ),
                        reuse: if computed { s.reuse.insert(v, b) } else { s.reuse },
                        buf_counter: bc,
                        dom_counter: dc,
                        ..s
                    })
                },
            }
        },
    }
}

/// Records the results of an operation from position `j` on.
pub open spec fn fresh_results(p: ImplProgram, s: FreshV, res: Seq<String>, j: nat, parameter: bool, constant: bool) -> Result<FreshV, ErrorCode>
    decreases res.len() - j,
{
    if j >= res.len() {
        Ok(s)
    } else {
        match fresh_value(p, s, res[j as int]@, parameter, constant) {
            Ok(s2) => fresh_results(p, s2, res, j + 1, parameter, constant),
            Err(c) => Err(c),
        }
    }
}

/// Records the memory operation of a lowered computing operation.
pub open spec fn fresh_memory_op(s: FreshV, o: Seq<char>, opcode: Opcode) -> FreshV {
    let mc = sat_succ(s.op_counter);
    let m = memory_id_prefix(3) + decimal(mc as nat);
    FreshV {
        op_for_impl: s.op_for_impl.insert(o, m),
        order: s.order.push(m),
        ops: s.ops.insert(m, (o, opcode_text(opcode))),
        op_counter: mc,
        ..s
    }
}

/// Lowers one operation.
pub open spec fn fresh_op(p: ImplProgram, s: FreshV, o: Seq<char>) -> Result<FreshV, ErrorCode> {
    let op = p.operations@[o];
    let parameter = op.opcode == Opcode::Parameter;
    let constant = op.opcode == Opcode::Constant;
    match fresh_results(p, s, op.results@, 0, parameter, constant) {
        Err(c) => Err(c),
        Ok(s2) => if parameter || constant {
            Ok(s2)
        } else {
            Ok(fresh_memory_op(s2, o, op.opcode))
        },
    }
}

/// Lowers the reached operations in implementation order from position `k` on.
pub open spec fn fresh_from(p: ImplProgram, reached: Set<Seq<char>>, s: FreshV, k: nat) -> Result<FreshV, ErrorCode>
    decreases p.operation_order@.len() - k,
{
    if k >= p.operation_order@.len() {
        Ok(s)
    } else if !reached.contains(p.operation_order@[k as int]@) {
        fresh_from(p, reached, s, k + 1)
    } else {
        match fresh_op(p, s, p.operation_order@[k as int]@) {
            Ok(s2) => fresh_from(p, reached, s2, k + 1),
            Err(c) => Err(c),
        }
    }
}

/// The plan that fresh bufferization builds before its analyses, from the
/// given buffer, alias-domain and memory-operation counters.
pub open spec fn fresh_outcome(p: ImplProgram, buf: u64, dom: u64, op: u64) -> Result<FreshV, ErrorCode> {
    if !dependencies_well_founded(p) {
        Err(ErrorCode::MemoryEquivalenceUnproved)
    } else {
        fresh_from(p, least_closed(p), fresh_start(buf, dom, op), 0)
    }
}

/// Whether `b` is the fresh buffer `f` with identity `id` and the initial lifetime.
pub open spec fn fresh_buffer_is(b: MemoryBuffer, id: Seq<char>, f: FreshBufferV) -> bool {
    &&& b.id@ == id
    &&& b.element_type == f.element
    &&& b.shape@ == f.shape
    &&& b.layout == MemoryLayout::ContiguousRowMajor
    &&& b.strides@ == f.strides
    &&& b.address_space == (if f.constant { AddressSpace::Constant } else { AddressSpace::Global })
    &&& b.access == (if f.parameter || f.constant { AccessMode::ReadOnly } else { AccessMode::ReadWrite })
    &&& b.alignment == spec_scalar_alignment(f.element)
    &&& b.alias_domain@ == f.domain
    &&& b.lifetime.first_point == 0
    &&& b.lifetime.uses@.len() == 0
    &&& b.lifetime.last_use == 0
    &&& !b.lifetime.output_escape
    &&& b.lifetime.external == f.parameter
    &&& b.lifetime.deallocation_eligible == !f.parameter
    &&& b.ownership == (if f.parameter {
        Ownership::ExternalBorrowed
    } else if f.constant {
        Ownership::ConstantOwned
    } else {
        Ownership::PlanOwned
    })
    &&& opt_view(b.external_binding) == f.external
    &&& b.source_value@ == f.value
    &&& b.offset_elements == 0
    &&& b.provenance@ == (if f.parameter {
        "external_parameter"@
    } else if f.constant {
        "immutable_constant"@
    } else {
        "fresh_conservative_bufferization"@
    })
}

/// Whether the memory program is exactly the plan `s`, before any analysis.
pub open spec fn fresh_matches(m: MemoryProgram, s: FreshV) -> bool {
    &&& m.bindings@.dom() == s.bindings.dom()
    &&& forall|k: Seq<char>| #[trigger] m.bindings@.contains_key(k) ==> binding_view(m.bindings@[k]) == s.bindings[k]
    &&& m.buffers@.dom() == s.buffers.dom()
    &&& forall|k: Seq<char>| #[trigger] m.buffers@.contains_key(k) ==> fresh_buffer_is(m.buffers@[k], k, s.buffers[k])
    &&& m.fresh_baseline_buffers@.dom() == s.baselines.dom()
    &&& forall|k: Seq<char>|
        #[trigger] m.fresh_baseline_buffers@.contains_key(k) ==> fresh_buffer_is(
            m.fresh_baseline_buffers@[k],
            s.baselines[k].0,
            s.baselines[k].1,
        )
    &&& m.alias_domains@.dom() == s.domains.dom()
    &&& forall|k: Seq<char>|
        #[trigger] m.alias_domains@.contains_key(k) ==> m.alias_domains@[k].id@ == k && m.alias_domains@[k].provenance
            == s.domains[k]
    &&& m.reuse_decisions@.dom() == s.reuse.dom()
    &&& forall|k: Seq<char>|
        #[trigger] m.reuse_decisions@.contains_key(k) ==> (m.reuse_decisions@[k] matches ReuseDecision::Fresh { buffer }
            && buffer@ == s.reuse[k])
    &&& m.operation_for_impl@.dom() == s.op_for_impl.dom()
    &&& forall|k: Seq<char>| #[trigger] m.operation_for_impl@.contains_key(k) ==> m.operation_for_impl@[k]@ == s.op_for_impl[k]
    &&& m.operation_order@.len() == s.order.len()
    &&& forall|i: int| 0 <= i < s.order.len() ==> (#[trigger] m.operation_order@[i])@ == s.order[i]
    &&& m.operations@.dom() == s.ops.dom()
    &&& forall|k: Seq<char>|
        #[trigger] m.operations@.contains_key(k) ==> {
            let o = m.operations@[k];
            &&& o.id@ == k
            &&& o.impl_operation@ == s.ops[k].0
            &&& o.opcode@ == s.ops[k].1
            &&& o.operands@.len() == 0
            &&& o.results@.len() == 0
            &&& o.accesses@.len() == 0
        }
    &&& m.outputs@ == Map::<Seq<char>, MemoryBinding>::empty()
    &&& m.alias_facts@.len() == 0
}

/// The name of the first parameter bound to `v`.
fn first_parameter_name(params: &IdMap<String>, v: &str) -> (r: Option<String>)
    ensures
        opt_view(r) == first_parameter(params.kv(), v@, 0),
{
    let n = params.len();
    let mut i: usize = 0;
    while i < n
        invariant
            n == params.kv().len(),
            i <= n,
            first_parameter(params.kv(), v@, i as nat) == first_parameter(params.kv(), v@, 0),
        decreases n - i,
    {
        let (name, value) = params.entry_at(i);
        if str_eq(value.as_str(), v) {
            return Some(name.clone());
        }
        i = i + 1;
    }
    None
}

/// Builds the fresh buffer of one tensor result.
fn fresh_buffer(
    id: &String,
    element: ScalarType,
    shape: &Shape,
    strides: MemoryStrides,
    parameter: bool,
    constant: bool,
    domain: &String,
    external: Option<String>,
    value: &String,
) -> (r: MemoryBuffer)
    ensures
        fresh_buffer_is(
            r,
            id@,
            (FreshBufferV {
                value: value@,
                element,
                shape: shape@,
                strides: strides@,
                parameter,
                constant,
                domain: domain@,
                external: opt_view(external),
            }),
        ),
{
    MemoryBuffer {
        id: id.clone(),
        element_type: element,
        shape: shape.copy(),
        layout: MemoryLayout::ContiguousRowMajor,
        strides,
        address_space: if constant { AddressSpace::Constant } else { AddressSpace::Global },
        access: if parameter || constant { AccessMode::ReadOnly } else { AccessMode::ReadWrite },
        alignment: scalar_alignment(element),
        alias_domain: domain.clone(),
        lifetime: Lifetime {
            first_point: 0,
            uses: Vec::new(),
            last_use: 0,
            output_escape: false,
            external: parameter,
            deallocation_eligible: !parameter,
        },
        ownership: if parameter {
            Ownership::ExternalBorrowed
        } else if constant {
            Ownership::ConstantOwned
        } else {
            Ownership::PlanOwned
        },
        external_binding: external,
        source_value: value.clone(),
        offset_elements: 0,
        provenance: if parameter {
            String::from_str("external_parameter")
        } else if constant {
            String::from_str("immutable_constant")
        } else {
            String::from_str("fresh_conservative_bufferization")
        },
    }
}

/// The allocator counters of plan `s`, the other counters unchanged from `a`.
pub open spec fn counters_at(x: MemoryAllocator, a: MemoryAllocator, s: FreshV) -> bool {
    &&& x.counter(2) == s.buf_counter
    &&& x.counter(4) == s.dom_counter
    &&& x.counter(3) == s.op_counter
    &&& others_unchanged(x, a)
}

/// Every counter but those of buffers, memory operations and alias domains is unchanged.
pub open spec fn others_unchanged(x: MemoryAllocator, a: MemoryAllocator) -> bool {
    forall|k: int| 0 <= k < 8 && k != 2 && k != 3 && k != 4 ==> x.counter(k) == a.counter(k)
}

/// Records one result value.
fn lower_value(
    implementation: &ImplProgram,
    memory: &mut MemoryProgram,
    allocator: &mut MemoryAllocator,
    v: &String,
    parameter: bool,
    constant: bool,
    Ghost(s): Ghost<FreshV>,
    Ghost(a0): Ghost<MemoryAllocator>,
) -> (r: AgentResult<Ghost<FreshV>>)
    requires
        implementation.values@.contains_key(v@),
        fresh_matches(*old(memory), s),
        counters_at(*old(allocator), a0, s),
    ensures
        match fresh_value(*implementation, s, v@, parameter, constant) {
            Ok(s2) => r matches Ok(g) && g@ == s2 && fresh_matches(*final(memory), s2) && counters_at(*final(allocator), a0, s2),
            Err(c) => r matches Err(e) && e.code == c,
        },
        others_unchanged(*final(allocator), a0),
{
    let value = implementation.values.get(v.as_str()).unwrap();
    match &value.ty {
        Type::Scalar(_) => {
            memory.bindings.insert(v.clone(), MemoryBinding::Scalar { value: v.clone() });
            let ghost s2 = FreshV { bindings: s.bindings.insert(v@, (v@, None)), ..s };
            proof {
                assert(memory.bindings@.dom() =~= s2.bindings.dom());
            }
            Ok(Ghost(s2))
        },
        Type::Tensor { element, shape } => {
            let buffer_id = allocator.buffer();
            let domain = allocator.alias_domain();
            let external = first_parameter_name(&implementation.parameters, v.as_str());
            let strides = match contiguous_strides(shape) {
                Ok(x) => x,
                Err(e) => {
                    return Err(e);
                },
            };
            let buffer = fresh_buffer(&buffer_id, *element, shape, strides, parameter, constant, &domain, external, v);
            let ghost f = FreshBufferV {
                value: v@,
                element: *element,
                shape: shape@,
                strides: buffer.strides@,
                parameter,
                constant,
                domain: domain@,
                external: first_parameter(implementation.parameters.kv(), v@, 0),
            };
            let provenance = if parameter {
                AliasProvenance::ProvedFromExternalContract
            } else {
                AliasProvenance::ProvedFromRegionConstruction
            };
            memory.alias_domains.insert(domain.clone(), AliasDomain { id: domain.clone(), provenance });
            let computed = !parameter && !constant;
            if computed {
                let baseline = buffer.with_lifetime(
                    Lifetime {
                        first_point: 0,
                        uses: Vec::new(),
                        last_use: 0,
                        output_escape: false,
                        external: parameter,
                        deallocation_eligible: !parameter,
                    },
                );
                memory.fresh_baseline_buffers.insert(v.clone(), baseline);
                memory.reuse_decisions.insert(v.clone(), ReuseDecision::Fresh { buffer: buffer_id.clone() });
            }
            memory.buffers.insert(buffer_id.clone(), buffer);
            memory.bindings.insert(v.clone(), MemoryBinding::Buffer { value: v.clone(), buffer: buffer_id.clone() });
            let ghost s2 = FreshV {
                bindings: s.bindings.insert(v@, (v@, Some(buffer_id@))),
                buffers: s.buffers.insert(buffer_id@, f),
                baselines: if computed { s.baselines.insert(v@, (buffer_id@, f)) } else { s.baselines },
                domains: s.domains.insert(domain@, provenance),
                reuse: if computed { s.reuse.insert(v@, buffer_id@) } else { s.reuse },
                buf_counter: allocator.counter(2),
                dom_counter: allocator.counter(4),
                ..s
            };
            proof {
                assert(memory.bindings@.dom() =~= s2.bindings.dom());
                assert(memory.buffers@.dom() =~= s2.buffers.dom());
                assert(memory.fresh_baseline_buffers@.dom() =~= s2.baselines.dom());
                assert(memory.alias_domains@.dom() =~= s2.domains.dom());
                assert(memory.reuse_decisions@.dom() =~= s2.reuse.dom());
            }
            Ok(Ghost(s2))
        },
    }
}

/// Records the results of one operation.
fn lower_results(
    implementation: &ImplProgram,
    memory: &mut MemoryProgram,
    allocator: &mut MemoryAllocator,
    results: &Vec<String>,
    parameter: bool,
    constant: bool,
    Ghost(s): Ghost<FreshV>,
    Ghost(a0): Ghost<MemoryAllocator>,
) -> (r: AgentResult<Ghost<FreshV>>)
    requires
        forall|i: int| 0 <= i < results@.len() ==> implementation.values@.contains_key((#[trigger] results@[i])@),
        fresh_matches(*old(memory), s),
        counters_at(*old(allocator), a0, s),
    ensures
        match fresh_results(*implementation, s, results@, 0, parameter, constant) {
            Ok(s2) => r matches Ok(g) && g@ == s2 && fresh_matches(*final(memory), s2) && counters_at(*final(allocator), a0, s2),
            Err(c) => r matches Err(e) && e.code == c,
        },
        others_unchanged(*final(allocator), a0),
{
    let ghost mut cur = s;
    let mut j: usize = 0;
    while j < results.len()
        invariant
            j <= results@.len(),
            forall|i: int| 0 <= i < results@.len() ==> implementation.values@.contains_key((#[trigger] results@[i])@),
            fresh_matches(*memory, cur),
            counters_at(*allocator, a0, cur),
            fresh_results(*implementation, cur, results@, j as nat, parameter, constant) == fresh_results(
                *implementation,
                s,
                results@,
                0,
                parameter,
                constant,
            ),
        decreases results@.len() - j,
    {
        let r = lower_value(implementation, memory, allocator, &results[j], parameter, constant, Ghost(cur), Ghost(a0));
        match r {
            Ok(g) => {
                proof {
                    cur = g@;
                }
            },
            Err(e) => {
                return Err(e);
            },
        }
        j = j + 1;
    }
    Ok(Ghost(cur))
}

/// Lowers one reached operation.
fn lower_op(
    implementation: &ImplProgram,
    memory: &mut MemoryProgram,
    allocator: &mut MemoryAllocator,
    id: &String,
    Ghost(s): Ghost<FreshV>,
    Ghost(a0): Ghost<MemoryAllocator>,
) -> (r: AgentResult<Ghost<FreshV>>)
    requires
        implementation.operations@.contains_key(id@),
        forall|i: int|
            0 <= i < implementation.operations@[id@].results@.len() ==> implementation.values@.contains_key(
                (#[trigger] implementation.operations@[id@].results@[i])@,
            ),
        fresh_matches(*old(memory), s),
        counters_at(*old(allocator), a0, s),
    ensures
        match fresh_op(*implementation, s, id@) {
            Ok(s2) => r matches Ok(g) && g@ == s2 && fresh_matches(*final(memory), s2) && counters_at(*final(allocator), a0, s2),
            Err(c) => r matches Err(e) && e.code == c,
        },
        others_unchanged(*final(allocator), a0),
{
    let op = implementation.operations.get(id.as_str()).unwrap();
    let parameter = op.opcode == Opcode::Parameter;
    let constant = op.opcode == Opcode::Constant;
    let ghost mut cur = s;
    match lower_results(implementation, memory, allocator, &op.results, parameter, constant, Ghost(s), Ghost(a0)) {
        Ok(g) => {
            proof {
                cur = g@;
            }
        },
        Err(e) => {
            return Err(e);
        },
    }
    if !parameter && !constant {
        let mop = allocator.operation();
        let ghost before_order = memory.operation_order@;
        memory.operation_for_impl.insert(id.clone(), mop.clone());
        memory.operation_order.push(mop.clone());
        memory.operations.insert(
            mop.clone(),
            MemoryOperation {
                id: mop.clone(),
                impl_operation: id.clone(),
                opcode: op.opcode.text(),
                operands: Vec::new(),
                results: Vec::new(),
                accesses: Vec::new(),
            },
        );
        proof {
            let prev = cur;
            cur = fresh_memory_op(prev, id@, op.opcode);
            assert(memory.operation_for_impl@.dom() =~= cur.op_for_impl.dom());
            assert(memory.operations@.dom() =~= cur.ops.dom());
            assert forall|i: int| 0 <= i < cur.order.len() implies (#[trigger] memory.operation_order@[i])@ == cur.order[i] by {
                if i < prev.order.len() {
                    assert(memory.operation_order@[i] == before_order[i]);
                }
            }
        }
    }
    Ok(Ghost(cur))
}

/// What lowering returns for plan `s`: the plan with its analyses
/// recomputed, or the error of that recomputation.
pub open spec fn fresh_result(p: ImplProgram, s: FreshV, r: AgentResult<MemoryProgram>) -> bool {
    exists|sk: MemoryProgram|
        #[trigger] fresh_matches(sk, s) && match rebuild_scan(sk, p, 0) {
            Some(c) => r matches Err(e) && e.code == c,
            None => if outputs_bound(sk, p) {
                r matches Ok(m) && same_but_analysis(sk, m) && ops_rebuilt(sk, m, p) && analysis_failure(m, p) is None
            } else {
                r matches Err(e) && e.code == ErrorCode::MemoryEquivalenceUnproved
            },
        }
}

/// Lowers an implementation to a fresh conservative memory program: each
/// reachable tensor result gets its own buffer and alias domain, each
/// reachable computing operation a memory operation, and the operation
/// accesses, outputs, lifetimes and alias facts are then recomputed.
pub fn lower_fresh(implementation: &ImplProgram, allocator: &mut MemoryAllocator) -> (r: AgentResult<MemoryProgram>)
    requires
        dependencies_well_founded(*implementation) ==> results_defined_in(*implementation, least_closed(*implementation)),
    ensures
        match fresh_outcome(*implementation, old(allocator).counter(2), old(allocator).counter(4), old(allocator).counter(3)) {
            Err(c) => r matches Err(e) && e.code == c,
            Ok(s) => counters_at(*final(allocator), *old(allocator), s) && fresh_result(*implementation, s, r),
        },
        others_unchanged(*final(allocator), *old(allocator)),
{
    let ghost a0 = *allocator;
    let ghost p = *implementation;
    let reached = match reachable_impl_operations(implementation) {
        Ok(x) => x,
        Err(e) => {
            return Err(e);
        },
    };
    let ghost dom = reached@.dom();
    proof {
        let cert = (dom, |o: Seq<char>| reached@[o] as nat);
        assert(crate::dependency::certifies(p, cert));
        assert(dependencies_well_founded(p));
        let c = least_closed(p);
        assert(read_closed(p, c) && forall|d: Set<Seq<char>>| #[trigger] read_closed(p, d) ==> c.subset_of(d));
        assert(c.subset_of(dom));
        assert(dom.subset_of(c));
        assert(c =~= dom);
    }
    let mut memory = MemoryProgram {
        bindings: IdMap::new(),
        buffers: IdMap::new(),
        fresh_baseline_buffers: IdMap::new(),
        operations: IdMap::new(),
        operation_order: Vec::new(),
        operation_for_impl: IdMap::new(),
        outputs: IdMap::new(),
        alias_domains: IdMap::new(),
        alias_facts: Vec::new(),
        reuse_decisions: IdMap::new(),
    };
    let ghost s0 = fresh_start(a0.counter(2), a0.counter(4), a0.counter(3));
    let ghost mut cur = s0;
    proof {
        assert(fresh_outcome(p, a0.counter(2), a0.counter(4), a0.counter(3)) == fresh_from(p, dom, s0, 0));
        assert(memory.bindings@.dom() =~= s0.bindings.dom());
        assert(memory.buffers@.dom() =~= s0.buffers.dom());
        assert(memory.fresh_baseline_buffers@.dom() =~= s0.baselines.dom());
        assert(memory.alias_domains@.dom() =~= s0.domains.dom());
        assert(memory.reuse_decisions@.dom() =~= s0.reuse.dom());
        assert(memory.operation_for_impl@.dom() =~= s0.op_for_impl.dom());
        assert(memory.operations@.dom() =~= s0.ops.dom());
    }
    let n = implementation.operation_order.len();
    let mut k: usize = 0;
    while k < n
        invariant
            p == *implementation,
            n == p.operation_order@.len(),
            k <= n,
            dom == reached@.dom(),
            dom == least_closed(p),
            read_closed(p, dom),
            results_defined_in(p, dom),
            fresh_matches(memory, cur),
            counters_at(*allocator, a0, cur),
            fresh_from(p, dom, cur, k as nat) == fresh_from(p, dom, s0, 0),
            a0 == *old(allocator),
            fresh_outcome(p, a0.counter(2), a0.counter(4), a0.counter(3)) == fresh_from(p, dom, s0, 0),
        decreases n - k,
    {
        let id = &implementation.operation_order[k];
        if reached.contains_key(id.as_str()) {
            proof {
                assert forall|i: int| 0 <= i < p.operations@[id@].results@.len() implies p.values@.contains_key(
                    (#[trigger] p.operations@[id@].results@[i])@,
                ) by {}
            }
            match lower_op(implementation, &mut memory, allocator, id, Ghost(cur), Ghost(a0)) {
                Ok(g) => {
                    proof {
                        cur = g@;
                    }
                },
                Err(e) => {
                    return Err(e);
                },
            }
        }
        k = k + 1;
    }
    let ghost sk = memory;
    let result = rebuild_analysis(&mut memory, implementation);
    proof {
        assert(fresh_from(p, dom, cur, k as nat) == Ok::<FreshV, ErrorCode>(cur));
    }
    let out: AgentResult<MemoryProgram> = match result {
        Ok(()) => Ok(memory),
        Err(e) => Err(e),
    };
    proof {
        assert(fresh_outcome(p, a0.counter(2), a0.counter(4), a0.counter(3)) == Ok::<FreshV, ErrorCode>(cur));
        assert(counters_at(*allocator, *old(allocator), cur));
        assert(p == *implementation);
        assert(fresh_result(*implementation, cur, out));
    }
    out
}

/// Whether two memory programs have the same bindings, operation order and
/// operations, up to views.
pub open spec fn plans_agree(a: MemoryProgram, b: MemoryProgram) -> bool {
    &&& a.bindings@.dom() == b.bindings@.dom()
    &&& forall|k: Seq<char>| #[trigger] a.bindings@.contains_key(k) ==> binding_view(a.bindings@[k]) == binding_view(b.bindings@[k])
    &&& a.operation_order@.len() == b.operation_order@.len()
    &&& forall|i: int| 0 <= i < a.operation_order@.len() ==> (#[trigger] a.operation_order@[i])@ == b.operation_order@[i]@
    &&& a.operations@.dom() == b.operations@.dom()
    &&& forall|k: Seq<char>| #[trigger] a.operations@.contains_key(k) ==> op_view(a.operations@[k]) == op_view(b.operations@[k])
}

proof fn lemma_fresh_plans_agree(a: MemoryProgram, b: MemoryProgram, s: FreshV)
    requires
        fresh_matches(a, s),
        fresh_matches(b, s),
    ensures
        plans_agree(a, b),
{
    assert forall|k: Seq<char>| #[trigger] a.operations@.contains_key(k) implies op_view(a.operations@[k]) == op_view(b.operations@[k]) by {
        let x = a.operations@[k];
        let y = b.operations@[k];
        assert(x.operands@.map_values(|c: MemoryBinding| binding_view(c)) =~= y.operands@.map_values(|c: MemoryBinding| binding_view(c)));
        assert(x.results@.map_values(|c: MemoryBinding| binding_view(c)) =~= y.results@.map_values(|c: MemoryBinding| binding_view(c)));
        assert(x.accesses@.map_values(|c: BufferAccess| access_view(c)) =~= y.accesses@.map_values(|c: BufferAccess| access_view(c)));
    }
}

proof fn lemma_bindings_of_agree(a: MemoryProgram, b: MemoryProgram, ids: Seq<String>)
    requires
        plans_agree(a, b),
    ensures
        bindings_of(a, ids) == bindings_of(b, ids),
{
    if forall|i: int| 0 <= i < ids.len() ==> a.bindings@.contains_key((#[trigger] ids[i])@) {
        assert(ids.map_values(|v: String| binding_view(a.bindings@[v@])) =~= ids.map_values(|v: String| binding_view(b.bindings@[v@])));
    } else {
        let i = choose|i: int| 0 <= i < ids.len() && !a.bindings@.contains_key((#[trigger] ids[i])@);
        assert(!b.bindings@.contains_key(ids[i]@));
    }
}

proof fn lemma_scan_agree(a: MemoryProgram, b: MemoryProgram, p: ImplProgram, k: nat)
    requires
        plans_agree(a, b),
    ensures
        rebuild_scan(a, p, k) == rebuild_scan(b, p, k),
    decreases a.operation_order@.len() - k,
{
    if k < a.operation_order@.len() {
        let key = a.operation_order@[k as int]@;
        assert(b.operation_order@[k as int]@ == key);
        if a.operations@.contains_key(key) {
            let x = a.operations@[key];
            let y = b.operations@[key];
            assert(op_view(x) == op_view(y));
            if p.operations@.contains_key(x.impl_operation@) {
                let src = p.operations@[x.impl_operation@];
                lemma_bindings_of_agree(a, b, src.operands@);
                lemma_bindings_of_agree(a, b, src.results@);
            }
            assert(spec_rebuilt_op(a, p, x) == spec_rebuilt_op(b, p, y));
        }
        lemma_scan_agree(a, b, p, k + 1);
    }
}

/// Fresh bufferization is deterministic: two results of lowering the same
/// implementation from the same allocator counters either both succeed or
/// both fail with the same error code, and on success have the same
/// bindings, operation order, operations and outputs.
pub proof fn law_fresh_bufferization_deterministic(
    p: ImplProgram,
    s: FreshV,
    r1: AgentResult<MemoryProgram>,
    r2: AgentResult<MemoryProgram>,
)
    requires
        fresh_result(p, s, r1),
        fresh_result(p, s, r2),
    ensures
        r1 is Ok <==> r2 is Ok,
        r1 matches Err(e1) ==> (r2 matches Err(e2) && e1.code == e2.code),
        r1 matches Ok(m1) ==> (r2 matches Ok(m2) && {
            &&& plans_agree(m1, m2)
            &&& m1.outputs.kv().len() == m2.outputs.kv().len()
            &&& forall|i: int|
                0 <= i < m1.outputs.kv().len() ==> (#[trigger] m1.outputs.kv()[i]).0 == m2.outputs.kv()[i].0
                    && binding_view(m1.outputs.kv()[i].1) == binding_view(m2.outputs.kv()[i].1)
        }),
{
    let sk1 = choose|sk: MemoryProgram| #[trigger] fresh_matches(sk, s) && match rebuild_scan(sk, p, 0) {
        Some(c) => r1 matches Err(e) && e.code == c,
        None => if outputs_bound(sk, p) {
            r1 matches Ok(m) && same_but_analysis(sk, m) && ops_rebuilt(sk, m, p) && analysis_failure(m, p) is None
        } else {
            r1 matches Err(e) && e.code == ErrorCode::MemoryEquivalenceUnproved
        },
    };
    let sk2 = choose|sk: MemoryProgram| #[trigger] fresh_matches(sk, s) && match rebuild_scan(sk, p, 0) {
        Some(c) => r2 matches Err(e) && e.code == c,
        None => if outputs_bound(sk, p) {
            r2 matches Ok(m) && same_but_analysis(sk, m) && ops_rebuilt(sk, m, p) && analysis_failure(m, p) is None
        } else {
            r2 matches Err(e) && e.code == ErrorCode::MemoryEquivalenceUnproved
        },
    };
    lemma_fresh_plans_agree(sk1, sk2, s);
    lemma_scan_agree(sk1, sk2, p, 0);
    assert(outputs_bound(sk1, p) == outputs_bound(sk2, p));
    if let (Ok(m1), Ok(m2)) = (r1, r2) {
        assert forall|k: Seq<char>| #[trigger] m1.operations@.contains_key(k) implies op_view(m1.operations@[k]) == op_view(m2.operations@[k]) by {
            if ordered(sk1, k) {
                let i = choose|i: int| 0 <= i < sk1.operation_order@.len() && (#[trigger] sk1.operation_order@[i])@ == k;
                assert(sk2.operation_order@[i]@ == k);
                let x = sk1.operations@[k];
                let y = sk2.operations@[k];
                if p.operations@.contains_key(x.impl_operation@) {
                    let src = p.operations@[x.impl_operation@];
                    lemma_bindings_of_agree(sk1, sk2, src.operands@);
                    lemma_bindings_of_agree(sk1, sk2, src.results@);
                }
                assert(spec_rebuilt_op(sk1, p, x) == spec_rebuilt_op(sk2, p, y));
            } else {
                assert(!ordered(sk2, k)) by {
                    if ordered(sk2, k) {
                        let i = choose|i: int| 0 <= i < sk2.operation_order@.len() && (#[trigger] sk2.operation_order@[i])@ == k;
                        assert(sk1.operation_order@[i]@ == k);
                    }
                }
            }
        }
        assert forall|i: int| 0 <= i < m1.outputs.kv().len() implies (#[trigger] m1.outputs.kv()[i]).0 == m2.outputs.kv()[i].0
            && binding_view(m1.outputs.kv()[i].1) == binding_view(m2.outputs.kv()[i].1) by {
            assert(m1.bindings@.contains_key(p.outputs.kv()[i].1.value@));
        }
    }
}

} // verus!
