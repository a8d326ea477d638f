//! Identity lowering of a complete frozen SpecIR into a separate ImplIR.
//!
//! A dependency-first search from the parameter values and then the output
//! values collects the operations they depend on, each after the operations
//! it reads. Each collected operation is then copied, in that order, under
//! fresh implementation identities, with every operand, capture, parameter
//! and output redirected to the fresh identity of the value it denotes.

use crate::candidate::CandidateAllocator;
use crate::diagnostics::{AgentError, AgentResult, ErrorCode};
use crate::idmap::{kv_keys, sorted_kv, IdMap};
use crate::impl_ir::{
    ImplBlockArgument, ImplOperation, ImplRegion, ImplRegionOperation, ImplRegionValue, ImplSourceLink, ImplValue,
    ImplValueOrigin,
};
use crate::text::seq_less;
use crate::types::{ShapeConstraint, Type, TypeV};
use crate::constraint_order::constraint_views;
use crate::idmap::kv_related;
use crate::impl_ir::{ImplOutput, ImplProgram};
use crate::obligations::ObligationStatus;
use crate::holes::Hole;
use crate::obligations::ProofObligation;
use crate::text::{prefixed_decimal, str_eq};
use crate::ir::{BlockArgument, ConstantValue, Dimension, Operation, Program, Region, RegionOperation, RegionValue, ValueDef, ValueOrigin};
use crate::text::{copy_strings, decimal};
use crate::json::{clone_json, JsonLit};
use crate::memory_ir::opt_view;
use vstd::prelude::*;

verus! {

// ---------------------------------------------------------------------------
// Filled holes.

/// The value that `v` denotes once a filled hole is replaced by its filler.
pub open spec fn resolved(p: Program, v: Seq<char>) -> Seq<char> {
    if p.values@.contains_key(v) {
        match p.values@[v].origin {
            ValueOrigin::Hole(h) => if p.holes@.contains_key(h@) && p.holes@[h@].filled_with is Some {
                p.holes@[h@].filled_with->0@
            } else {
                v
            },
            _ => v,
        }
    } else {
        v
    }
}

impl Program {
    /// The value that `value` denotes: the filler of its hole when the hole
    /// is filled, otherwise the value itself.
    pub fn resolve_filled_value<'a>(&'a self, value: &'a str) -> (r: &'a str)
        ensures
            r@ == resolved(*self, value@),
    {
        match self.values.get(value) {
            None => value,
            Some(definition) => match &definition.origin {
                ValueOrigin::Hole(hole) => match self.holes.get(hole.as_str()) {
                    Some(h) => match &h.filled_with {
                        Some(f) => f.as_str(),
                        None => value,
                    },
                    None => value,
                },
                _ => value,
            },
        }
    }
}

// ---------------------------------------------------------------------------
// The dependency-first search.

/// The values an operation reads: its operands, then its region's captures.
pub open spec fn reads(o: Operation) -> Seq<Seq<char>> {
    let operands = o.operands@.map_values(|s: String| s@);
    match o.region {
        Some(r) => operands + r.captures@.map_values(|s: String| s@),
        None => operands,
    }
}

/// The existing operation that defines the value `v` denotes, if any.
pub open spec fn read_def(p: Program, v: Seq<char>) -> Option<Seq<char>> {
    let w = resolved(p, v);
    if p.values@.contains_key(w) {
        match p.values@[w].origin {
            ValueOrigin::Operation(o) => if p.operations@.contains_key(o@) {
                Some(o@)
            } else {
                None
            },
            _ => None,
        }
    } else {
        None
    }
}

/// The search roots: parameter values in name order, then output values in name order.
pub open spec fn search_roots(p: Program) -> Seq<Seq<char>> {
    p.parameters.kv().map_values(|e: (Seq<char>, String)| e.1@) + p.outputs.kv().map_values(
        |e: (Seq<char>, String)| e.1@,
    )
}

/// `c` contains the defining operations of the roots and, for each of its
/// operations, the defining operations of the values it reads, each ranked
/// below the reader.
pub open spec fn search_certified(p: Program, c: Set<Seq<char>>, rank: spec_fn(Seq<char>) -> nat) -> bool {
    &&& forall|i: int| 0 <= i < search_roots(p).len() ==> ((#[trigger] read_def(p, search_roots(p)[i])) matches Some(o)
        ==> c.contains(o))
    &&& forall|o: Seq<char>, i: int|
        c.contains(o) && p.operations@.contains_key(o) && 0 <= i < reads(p.operations@[o]).len() ==> ((
        #[trigger] read_def(p, reads(p.operations@[o])[i])) matches Some(d) ==> c.contains(d) && rank(d) < rank(o))
}

/// The dependencies reachable from the roots are acyclic: the search ends.
pub open spec fn search_terminates(p: Program) -> bool {
    exists|cert: (Set<Seq<char>>, spec_fn(Seq<char>) -> nat)| #[trigger] search_certified(p, cert.0, cert.1)
}

/// The search from value `v`, given the operations already finished
/// (`seen`) and their finishing order; `fuel` bounds its depth.
pub open spec fn search_value(
    p: Program,
    v: Seq<char>,
    seen: Set<Seq<char>>,
    order: Seq<Seq<char>>,
    fuel: nat,
) -> Result<(Set<Seq<char>>, Seq<Seq<char>>), ErrorCode>
    decreases fuel, 0int, 0int,
{
    let w = resolved(p, v);
    if !p.values@.contains_key(w) {
        Err(ErrorCode::ImplVerificationFailed)
    } else {
        match p.values@[w].origin {
            ValueOrigin::Hole(_) => Err(ErrorCode::ImplVerificationFailed),
            ValueOrigin::Operation(o) => if seen.contains(o@) {
                Ok((seen, order))
            } else if !p.operations@.contains_key(o@) {
                Err(ErrorCode::ImplVerificationFailed)
            } else if fuel == 0 {
                Err(ErrorCode::ImplVerificationFailed)
            } else {
                match search_list(p, reads(p.operations@[o@]), 0, seen, order, (fuel - 1) as nat) {
                    Err(c) => Err(c),
                    Ok((s, ord)) => Ok((s.insert(o@), ord.push(o@))),
                }
            },
        }
    }
}

/// The search from the values `vs[i..]` in order.
pub open spec fn search_list(
    p: Program,
    vs: Seq<Seq<char>>,
    i: nat,
    seen: Set<Seq<char>>,
    order: Seq<Seq<char>>,
    fuel: nat,
) -> Result<(Set<Seq<char>>, Seq<Seq<char>>), ErrorCode>
    decreases fuel, 1int, vs.len() - i,
{
    if i >= vs.len() {
        Ok((seen, order))
    } else {
        match search_value(p, vs[i as int], seen, order, fuel) {
            Err(c) => Err(c),
            Ok((s, ord)) => search_list(p, vs, i + 1, s, ord, fuel),
        }
    }
}

/// The views of a sequence of strings.
pub open spec fn views(v: Seq<String>) -> Seq<Seq<char>> {
    v.map_values(|s: String| s@)
}

/// The fuel that suffices for a search from `v` under a rank.
pub open spec fn fuel_for(p: Program, rank: spec_fn(Seq<char>) -> nat, v: Seq<char>) -> nat {
    match read_def(p, v) {
        Some(o) => rank(o) + 1,
        None => 0,
    }
}

/// The search from the roots `roots[i..]`, each with the fuel its rank gives.
pub open spec fn search_from(
    p: Program,
    rank: spec_fn(Seq<char>) -> nat,
    roots: Seq<Seq<char>>,
    i: nat,
    seen: Set<Seq<char>>,
    order: Seq<Seq<char>>,
) -> Result<(Set<Seq<char>>, Seq<Seq<char>>), ErrorCode>
    decreases roots.len() - i,
{
    if i >= roots.len() {
        Ok((seen, order))
    } else {
        match search_value(p, roots[i as int], seen, order, fuel_for(p, rank, roots[i as int])) {
            Err(c) => Err(c),
            Ok((s, ord)) => search_from(p, rank, roots, i + 1, s, ord),
        }
    }
}

/// The operations the roots depend on, dependency-first, or the search error.
pub open spec fn lowering_order(p: Program) -> Result<Seq<Seq<char>>, ErrorCode> {
    let cert = choose|cert: (Set<Seq<char>>, spec_fn(Seq<char>) -> nat)| #[trigger] search_certified(p, cert.0, cert.1);
    match search_from(p, cert.1, search_roots(p), 0, Set::empty(), Seq::empty()) {
        Ok((_, order)) => Ok(order),
        Err(c) => Err(c),
    }
}

fn reads_of(o: &Operation) -> (r: Vec<String>)
    ensures
        views(r@) == reads(*o),
{
    let mut out = copy_strings(&o.operands);
    match &o.region {
        Some(region) => {
            let captures = copy_strings(&region.captures);
            let ghost first = out@;
            let mut i: usize = 0;
            while i < captures.len()
                invariant
                    i <= captures@.len(),
                    views(out@) == views(first) + views(captures@.take(i as int)),
                decreases captures.len() - i,
            {
                let ghost prev = out@;
                out.push(captures[i].clone());
                proof {
                    assert(views(out@) =~= views(prev).push(captures@[i as int]@));
                    assert(views(captures@.take(i + 1)) =~= views(captures@.take(i as int)).push(captures@[i as int]@));
                    assert(views(out@) =~= views(first) + views(captures@.take(i + 1)));
                }
                i = i + 1;
            }
            proof {
                assert(captures@.take(captures@.len() as int) =~= captures@);
            }
        },
        None => {},
    }
    proof {
        assert(views(o.operands@) =~= o.operands@.map_values(|s: String| s@));
    }
    out
}

fn search_error() -> (r: AgentError)
    ensures
        r.code == ErrorCode::ImplVerificationFailed,
{
    AgentError::new(ErrorCode::ImplVerificationFailed, "frozen SpecIR value or operation is missing or hole-backed")
}

fn visit_source_value(
    program: &Program,
    value: &str,
    seen: &mut IdMap<()>,
    order: &mut Vec<String>,
    Ghost(c): Ghost<Set<Seq<char>>>,
    Ghost(rank): Ghost<spec_fn(Seq<char>) -> nat>,
    Ghost(fuel): Ghost<nat>,
) -> (r: AgentResult<()>)
    requires
        search_certified(*program, c, rank),
        (read_def(*program, value@) matches Some(o) ==> c.contains(o) && rank(o) < fuel),
    ensures
        match search_value(*program, value@, old(seen)@.dom(), views(old(order)@), fuel) {
            Ok((s, ord)) => r is Ok && final(seen)@.dom() == s && views(final(order)@) == ord,
            Err(code) => r matches Err(e) && e.code == code,
        },
    decreases fuel,
{
    let w = program.resolve_filled_value(value);
    let definition = match program.values.get(w) {
        Some(d) => d,
        None => {
            return Err(search_error());
        },
    };
    let operation = match &definition.origin {
        ValueOrigin::Operation(o) => o,
        ValueOrigin::Hole(_) => {
            return Err(search_error());
        },
    };
    if seen.contains_key(operation.as_str()) {
        return Ok(());
    }
    let source = match program.operations.get(operation.as_str()) {
        Some(s) => s,
        None => {
            return Err(search_error());
        },
    };
    let ghost o = operation@;
    proof {
        assert(read_def(*program, value@) == Some(o));
    }
    let list = reads_of(source);
    let ghost vs = reads(*source);
    let ghost s0 = seen@.dom();
    let ghost o0 = views(order@);
    let ghost whole = search_list(*program, vs, 0, s0, o0, (fuel - 1) as nat);
    proof {
        assert(!s0.contains(o));
        assert(search_value(*program, value@, s0, o0, fuel) == match whole {
            Err(code) => Err(code),
            Ok((s, ord)) => Ok((s.insert(o), ord.push(o))),
        });
    }
    let mut i: usize = 0;
    while i < list.len()
        invariant
            views(list@) == vs,
            vs == reads(program.operations@[o]),
            program.operations@.contains_key(o),
            c.contains(o),
            rank(o) < fuel,
            search_certified(*program, c, rank),
            i <= list@.len(),
            whole == search_list(*program, vs, 0, s0, o0, (fuel - 1) as nat),
            s0 == old(seen)@.dom(),
            o0 == views(old(order)@),
            search_value(*program, value@, s0, o0, fuel) == match whole {
                Err(code) => Err(code),
                Ok((s, ord)) => Ok((s.insert(o), ord.push(o))),
            },
            search_list(*program, vs, i as nat, seen@.dom(), views(order@), (fuel - 1) as nat) == whole,
        decreases list.len() - i,
    {
        proof {
            assert(views(list@)[i as int] == list@[i as int]@);
            assert(read_def(*program, vs[i as int]) matches Some(d) ==> (c.contains(d) && rank(d) < rank(o)));
        }
        match visit_source_value(program, list[i].as_str(), seen, order, Ghost(c), Ghost(rank), Ghost((fuel - 1) as nat)) {
            Ok(()) => {},
            Err(e) => {
                return Err(e);
            },
        }
        i = i + 1;
    }
    let ghost prev = order@;
    seen.insert(operation.clone(), ());
    order.push(operation.clone());
    proof {
        assert(views(order@) =~= views(prev).push(o));
    }
    Ok(())
}

// ---------------------------------------------------------------------------
// Copying attributes, constants and regions.

/// Copies an attribute map entry by entry.
pub fn copy_attributes(attributes: &IdMap<JsonLit>) -> (r: IdMap<JsonLit>)
    ensures
        r.kv() == attributes.kv(),
{
    let n = attributes.len();
    let mut out: IdMap<JsonLit> = IdMap::new();
    let mut i: usize = 0;
    while i < n
        invariant
            n == attributes.kv().len(),
            sorted_kv(attributes.kv()),
            i <= n,
            out.kv() == attributes.kv().take(i as int),
        decreases n - i,
    {
        let (k, v) = attributes.entry_at(i);
        proof {
            if i > 0 {
                assert(out.kv().last() == attributes.kv()[i - 1]);
                assert(seq_less(attributes.kv()[i - 1].0, attributes.kv()[i as int].0));
            }
        }
        out.push_ordered(k.clone(), v.copy());
        proof {
            assert(attributes.kv().take(i + 1) =~= attributes.kv().take(i as int).push(attributes.kv()[i as int]));
        }
        i = i + 1;
    }
    proof {
        assert(attributes.kv().take(n as int) =~= attributes.kv());
    }
    out
}

/// Copies a constant exactly.
pub fn copy_constant(c: &ConstantValue) -> (r: ConstantValue)
    ensures
        r == *c,
{
    match c {
        ConstantValue::Bool { value } => ConstantValue::Bool { value: *value },
        ConstantValue::I32 { value } => ConstantValue::I32 { value: *value },
        ConstantValue::F32 { bits } => ConstantValue::F32 { bits: bits.clone() },
    }
}

fn copy_opt_string(o: &Option<String>) -> (r: Option<String>)
    ensures
        r == *o,
{
    match o {
        Some(s) => Some(s.clone()),
        None => None,
    }
}


/// The views of a sequence of types.
pub open spec fn type_views(v: Seq<Type>) -> Seq<TypeV> {
    v.map_values(|t: Type| t@)
}

fn copy_types(v: &Vec<Type>) -> (r: Vec<Type>)
    ensures
        type_views(r@) == type_views(v@),
{
    let mut out: Vec<Type> = Vec::new();
    let mut i: usize = 0;
    while i < v.len()
        invariant
            i <= v@.len(),
            out@.len() == i,
            forall|j: int| 0 <= j < i ==> (#[trigger] out@[j])@ == v@[j]@,
        decreases v.len() - i,
    {
        out.push(v[i].copy());
        i = i + 1;
    }
    proof {
        assert(type_views(out@) =~= type_views(v@));
    }
    out
}

/// Whether a lowered region value denotes a source region value under the value map `m`.
pub open spec fn region_value_lowered(iv: ImplRegionValue, sv: RegionValue, m: Map<Seq<char>, Seq<char>>) -> bool {
    match (iv, sv) {
        (ImplRegionValue::Argument(a), RegionValue::Argument(b)) => a@ == b@,
        (ImplRegionValue::Local(a), RegionValue::Local(b)) => a@ == b@,
        (ImplRegionValue::Capture(a), RegionValue::Capture(b)) => m.contains_key(b@) && a@ == m[b@],
        _ => false,
    }
}

/// Whether a source region value can be lowered under `m`.
pub open spec fn region_value_mapped(sv: RegionValue, m: Map<Seq<char>, Seq<char>>) -> bool {
    match sv {
        RegionValue::Capture(b) => m.contains_key(b@),
        _ => true,
    }
}

/// Whether every capture and captured value of a source region can be lowered under `m`.
pub open spec fn region_mapped(r: Region, m: Map<Seq<char>, Seq<char>>) -> bool {
    &&& forall|i: int| 0 <= i < r.captures@.len() ==> m.contains_key((#[trigger] r.captures@[i])@)
    &&& forall|j: int, q: int|
        0 <= j < r.operations@.len() && 0 <= q < r.operations@[j].operands@.len() ==> region_value_mapped(
            #[trigger] r.operations@[j].operands@[q],
            m,
        )
    &&& region_value_mapped(r.yield_value, m)
}

/// Whether `ir` is the lowering of the source region `sr` under `m`.
pub open spec fn region_lowered(ir: ImplRegion, sr: Region, m: Map<Seq<char>, Seq<char>>) -> bool {
    &&& ir.arguments@.len() == sr.arguments@.len()
    &&& forall|i: int|
        0 <= i < ir.arguments@.len() ==> (#[trigger] ir.arguments@[i]).name@ == sr.arguments@[i].name@
            && ir.arguments@[i].ty@ == sr.arguments@[i].ty@
    &&& views(ir.captures@) == sr.captures@.map_values(|c: String| m[c@])
    &&& ir.operations@.len() == sr.operations@.len()
    &&& forall|j: int| 0 <= j < ir.operations@.len() ==> region_op_lowered(#[trigger] ir.operations@[j], sr.operations@[j], m)
    &&& region_value_lowered(ir.yield_value, sr.yield_value, m)
    &&& ir.yield_type@ == sr.yield_type@
}

/// Whether `io` is the lowering of the source region operation `so` under `m`.
pub open spec fn region_op_lowered(io: ImplRegionOperation, so: RegionOperation, m: Map<Seq<char>, Seq<char>>) -> bool {
    &&& io.result@ == so.result@
    &&& io.opcode == so.opcode
    &&& io.operands@.len() == so.operands@.len()
    &&& forall|q: int| 0 <= q < io.operands@.len() ==> region_value_lowered(#[trigger] io.operands@[q], so.operands@[q], m)
    &&& io.attributes.kv() == so.attributes.kv()
    &&& io.result_type@ == so.result_type@
}

fn lower_region_value(v: &RegionValue, values: &IdMap<String>) -> (r: Option<ImplRegionValue>)
    ensures
        region_value_mapped(*v, values@.map_values(|s: String| s@)) ==> (r matches Some(x) && region_value_lowered(
            x,
            *v,
            values@.map_values(|s: String| s@),
        )),
        !region_value_mapped(*v, values@.map_values(|s: String| s@)) ==> r is None,
{
    match v {
        RegionValue::Argument(name) => Some(ImplRegionValue::Argument(name.clone())),
        RegionValue::Local(name) => Some(ImplRegionValue::Local(name.clone())),
        RegionValue::Capture(value) => match values.get(value.as_str()) {
            Some(x) => Some(ImplRegionValue::Capture(x.clone())),
            None => None,
        },
    }
}

/// Lowers a region under the value map; `None` when a capture is unmapped.
fn lower_region(region: &Region, values: &IdMap<String>) -> (r: Option<ImplRegion>)
    ensures
        region_mapped(*region, values@.map_values(|s: String| s@)) ==> (r matches Some(x) && region_lowered(
            x,
            *region,
            values@.map_values(|s: String| s@),
        )),
        !region_mapped(*region, values@.map_values(|s: String| s@)) ==> r is None,
{
    let ghost m = values@.map_values(|s: String| s@);
    let mut arguments: Vec<ImplBlockArgument> = Vec::new();
    let mut i: usize = 0;
    while i < region.arguments.len()
        invariant
            i <= region.arguments@.len(),
            arguments@.len() == i,
            forall|j: int|
                0 <= j < i ==> (#[trigger] arguments@[j]).name@ == region.arguments@[j].name@ && arguments@[j].ty@
                    == region.arguments@[j].ty@,
        decreases region.arguments.len() - i,
    {
        let a = &region.arguments[i];
        arguments.push(ImplBlockArgument { name: a.name.clone(), ty: a.ty.copy() });
        i = i + 1;
    }
    let mut captures: Vec<String> = Vec::new();
    let mut c: usize = 0;
    while c < region.captures.len()
        invariant
            m == values@.map_values(|s: String| s@),
            c <= region.captures@.len(),
            captures@.len() == c,
            forall|j: int| 0 <= j < c ==> m.contains_key((#[trigger] region.captures@[j])@) && captures@[j]@ == m[region.captures@[j]@],
        decreases region.captures.len() - c,
    {
        match values.get(region.captures[c].as_str()) {
            Some(x) => captures.push(x.clone()),
            None => {
                return None;
            },
        }
        c = c + 1;
    }
    proof {
        assert(views(captures@) =~= region.captures@.map_values(|s: String| m[s@]));
    }
    let mut operations: Vec<ImplRegionOperation> = Vec::new();
    let mut j: usize = 0;
    while j < region.operations.len()
        invariant
            m == values@.map_values(|s: String| s@),
            forall|q: int| 0 <= q < region.captures@.len() ==> m.contains_key((#[trigger] region.captures@[q])@),
            j <= region.operations@.len(),
            operations@.len() == j,
            forall|t: int| 0 <= t < j ==> region_op_lowered(#[trigger] operations@[t], region.operations@[t], m),
            forall|t: int, q: int|
                0 <= t < j && 0 <= q < region.operations@[t].operands@.len() ==> region_value_mapped(
                    #[trigger] region.operations@[t].operands@[q],
                    m,
                ),
        decreases region.operations.len() - j,
    {
        let op = &region.operations[j];
        let mut operands: Vec<ImplRegionValue> = Vec::new();
        let mut q: usize = 0;
        while q < op.operands.len()
            invariant
                m == values@.map_values(|s: String| s@),
                j < region.operations@.len(),
                *op == region.operations@[j as int],
                q <= op.operands@.len(),
                operands@.len() == q,
                forall|u: int| 0 <= u < q ==> region_value_mapped(#[trigger] op.operands@[u], m),
                forall|u: int| 0 <= u < q ==> region_value_lowered(#[trigger] operands@[u], op.operands@[u], m),
            decreases op.operands.len() - q,
        {
            match lower_region_value(&op.operands[q], values) {
                Some(x) => operands.push(x),
                None => {
                    proof {
                        assert(!region_value_mapped(region.operations@[j as int].operands@[q as int], m));
                    }
                    return None;
                },
            }
            q = q + 1;
        }
        operations.push(ImplRegionOperation {
            result: op.result.clone(),
            opcode: op.opcode,
            operands,
            attributes: copy_attributes(&op.attributes),
            result_type: op.result_type.copy(),
        });
        j = j + 1;
    }
    let yield_value = match lower_region_value(&region.yield_value, values) {
        Some(x) => x,
        None => {
            return None;
        },
    };
    Some(ImplRegion { arguments, captures, operations, yield_value, yield_type: region.yield_type.copy() })
}

// ---------------------------------------------------------------------------
// Lowering the collected operations.

/// The identity of the `k`-th lowered operation for an allocator at `o0`.
pub open spec fn lowered_op_id(o0: nat, k: nat) -> Seq<char> {
    "iop"@ + decimal(o0 + k + 1)
}

/// The identity of the `n`-th lowered value for an allocator at `v0`.
pub open spec fn lowered_value_id(v0: nat, n: nat) -> Seq<char> {
    "iv"@ + decimal(v0 + n + 1)
}

/// The results of the first `k` collected operations, in order, each paired
/// with the position of its operation.
pub open spec fn flat_results(p: Program, order: Seq<Seq<char>>, k: nat) -> Seq<(nat, Seq<char>)>
    decreases k,
{
    if k == 0 {
        Seq::empty()
    } else {
        flat_results(p, order, (k - 1) as nat) + p.operations@[order[k - 1]].results@.map_values(
            |r: String| ((k - 1) as nat, r@),
        )
    }
}

/// The map from source values to the lowered identities of `f`'s entries;
/// a later entry for the same source value wins.
pub open spec fn value_map_of(f: Seq<(nat, Seq<char>)>, v0: nat) -> Map<Seq<char>, Seq<char>>
    decreases f.len(),
{
    if f.len() == 0 {
        Map::empty()
    } else {
        value_map_of(f.drop_last(), v0).insert(f.last().1, lowered_value_id(v0, (f.len() - 1) as nat))
    }
}

/// The value map once the results of the first `k` operations are lowered.
pub open spec fn value_map_after(p: Program, order: Seq<Seq<char>>, k: nat, v0: nat) -> Map<Seq<char>, Seq<char>> {
    value_map_of(flat_results(p, order, k), v0)
}

/// The `k`-th collected operation can be lowered: it exists, its results
/// exist, and its operands (after filled holes) and region captures are
/// mapped once its own results are.
pub open spec fn op_lowerable(p: Program, order: Seq<Seq<char>>, k: nat, v0: nat) -> bool {
    let o = p.operations@[order[k as int]];
    let m = value_map_after(p, order, k + 1, v0);
    &&& p.operations@.contains_key(order[k as int])
    &&& forall|t: int| 0 <= t < o.results@.len() ==> p.values@.contains_key((#[trigger] o.results@[t])@)
    &&& forall|i: int| 0 <= i < o.operands@.len() ==> m.contains_key(resolved(p, (#[trigger] o.operands@[i])@))
    &&& match o.region {
        Some(r) => region_mapped(r, m),
        None => true,
    }
}

/// Whether a lowered value is the copy of source value `sv` (definition
/// `d`) as the `n`-th lowered value, defined by the `k`-th lowered operation
/// copied from source operation `sid`.
pub open spec fn value_lowered(
    iv: ImplValue,
    d: ValueDef,
    sv: Seq<char>,
    sid: Seq<char>,
    o0: nat,
    v0: nat,
    k: nat,
    n: nat,
) -> bool {
    &&& iv.id@ == lowered_value_id(v0, n)
    &&& iv.ty@ == d.ty@
    &&& (iv.origin matches ImplValueOrigin::Operation(o) && o@ == lowered_op_id(o0, k))
    &&& opt_view(iv.name) == opt_view(d.name)
    &&& opt_view(iv.source_link.spec_operation) == Some(sid)
    &&& opt_view(iv.source_link.spec_value) == Some(sv)
    &&& iv.source_link.rewrite_rule is None
}

/// Whether a lowered operation is the copy of source operation `so` (at
/// `sid`) as the `k`-th lowered operation, whose first result is the
/// `n0`-th lowered value, under the value map `m`.
pub open spec fn op_lowered(
    p: Program,
    io: ImplOperation,
    so: Operation,
    sid: Seq<char>,
    o0: nat,
    v0: nat,
    k: nat,
    n0: nat,
    m: Map<Seq<char>, Seq<char>>,
) -> bool {
    &&& io.id@ == lowered_op_id(o0, k)
    &&& io.opcode == so.opcode
    &&& views(io.operands@) == so.operands@.map_values(|v: String| m[resolved(p, v@)])
    &&& views(io.results@) == Seq::new(so.results@.len(), |t: int| lowered_value_id(v0, (n0 + t) as nat))
    &&& io.attributes.kv() == so.attributes.kv()
    &&& match (io.region, so.region) {
        (None, None) => true,
        (Some(ir), Some(sr)) => region_lowered(ir, sr, m),
        _ => false,
    }
    &&& type_views(io.result_types@) == type_views(so.result_types@)
    &&& opt_view(io.source_link.spec_operation) == Some(sid)
    &&& opt_view(io.source_link.spec_value) == (if so.results@.len() > 0 {
        Some(so.results@[0]@)
    } else {
        None
    })
    &&& io.source_link.rewrite_rule is None
}

proof fn lemma_flat_grows(p: Program, order: Seq<Seq<char>>, k: nat, j: nat)
    requires
        k <= j,
    ensures
        flat_results(p, order, k).len() <= flat_results(p, order, j).len(),
        flat_results(p, order, j).take(flat_results(p, order, k).len() as int) == flat_results(p, order, k),
    decreases j - k,
{
    if k < j {
        lemma_flat_grows(p, order, k, (j - 1) as nat);
        let a = flat_results(p, order, (j - 1) as nat);
        let b = flat_results(p, order, j);
        assert(b.take(a.len() as int) =~= a);
        assert(b.take(flat_results(p, order, k).len() as int) =~= a.take(flat_results(p, order, k).len() as int));
    }
}

/// The state of the lowering after the results of a prefix `f` of the flat
/// results are lowered: the value map, the values and the constants.
pub open spec fn values_state(
    p: Program,
    order: Seq<Seq<char>>,
    f: Seq<(nat, Seq<char>)>,
    o0: nat,
    v0: nat,
    value_map: Map<Seq<char>, String>,
    values: Map<Seq<char>, ImplValue>,
    constants: Map<Seq<char>, ConstantValue>,
) -> bool {
    &&& value_map.map_values(|s: String| s@) == value_map_of(f, v0)
    &&& values_built(p, order, f, o0, v0, values, constants)
}

/// The values and constants lowered for the flat results `f`: the `n`-th
/// entry's value and, when the source value is a constant, its constant,
/// under the `n`-th fresh value identity, and nothing else.
pub open spec fn values_built(
    p: Program,
    order: Seq<Seq<char>>,
    f: Seq<(nat, Seq<char>)>,
    o0: nat,
    v0: nat,
    values: Map<Seq<char>, ImplValue>,
    constants: Map<Seq<char>, ConstantValue>,
) -> bool {
    &&& forall|n: int|
        0 <= n < f.len() ==> values.contains_key(#[trigger] lowered_value_id(v0, n as nat)) && value_lowered(
            values[lowered_value_id(v0, n as nat)],
            p.values@[f[n].1],
            f[n].1,
            order[f[n].0 as int],
            o0,
            v0,
            f[n].0,
            n as nat,
        )
    &&& forall|id: Seq<char>| #[trigger] values.contains_key(id) ==> exists|n: int| 0 <= n < f.len() && id == #[trigger] lowered_value_id(v0, n as nat)
    &&& forall|n: int|
        0 <= n < f.len() ==> (constants.contains_key(#[trigger] lowered_value_id(v0, n as nat)) <==> p.constants@.contains_key(f[n].1))
    &&& forall|n: int|
        0 <= n < f.len() && p.constants@.contains_key(f[n].1) ==> constants[#[trigger] lowered_value_id(v0, n as nat)] == p.constants@[f[n].1]
    &&& forall|id: Seq<char>| #[trigger] constants.contains_key(id) ==> exists|n: int| 0 <= n < f.len() && id == #[trigger] lowered_value_id(v0, n as nat)
}

proof fn lemma_value_ids_distinct(v0: nat, m: nat, n: nat)
    requires
        m != n,
    ensures
        lowered_value_id(v0, m) != lowered_value_id(v0, n),
{
    crate::ids::lemma_allocated_ids_distinct("iv"@, v0 + m + 1, v0 + n + 1);
}

proof fn lemma_op_ids_distinct(o0: nat, m: nat, n: nat)
    requires
        m != n,
    ensures
        lowered_op_id(o0, m) != lowered_op_id(o0, n),
{
    crate::ids::lemma_allocated_ids_distinct("iop"@, o0 + m + 1, o0 + n + 1);
}

fn lowering_error() -> (r: AgentError)
    ensures
        r.code == ErrorCode::ImplVerificationFailed,
{
    AgentError::new(ErrorCode::ImplVerificationFailed, "identity lowering cannot map a source value")
}

proof fn lemma_values_step(
    p: Program,
    order: Seq<Seq<char>>,
    f: Seq<(nat, Seq<char>)>,
    x: (nat, Seq<char>),
    o0: nat,
    v0: nat,
    vm: Map<Seq<char>, String>,
    vals: Map<Seq<char>, ImplValue>,
    cs: Map<Seq<char>, ConstantValue>,
    vid: String,
    iv: ImplValue,
)
    requires
        values_state(p, order, f, o0, v0, vm, vals, cs),
        vid@ == lowered_value_id(v0, f.len()),
        value_lowered(iv, p.values@[x.1], x.1, order[x.0 as int], o0, v0, x.0, f.len()),
    ensures
        values_state(
            p,
            order,
            f.push(x),
            o0,
            v0,
            vm.insert(x.1, vid),
            vals.insert(vid@, iv),
            if p.constants@.contains_key(x.1) {
                cs.insert(vid@, p.constants@[x.1])
            } else {
                cs
            },
        ),
{
    let g = f.push(x);
    let n = f.len();
    assert(g.drop_last() =~= f);
    assert(vm.insert(x.1, vid).map_values(|s: String| s@) =~= vm.map_values(|s: String| s@).insert(x.1, vid@));
    let vals2 = vals.insert(vid@, iv);
    let cs2 = if p.constants@.contains_key(x.1) {
        cs.insert(vid@, p.constants@[x.1])
    } else {
        cs
    };
    assert forall|m: int| 0 <= m < g.len() implies vals2.contains_key(#[trigger] lowered_value_id(v0, m as nat)) && value_lowered(
        vals2[lowered_value_id(v0, m as nat)],
        p.values@[g[m].1],
        g[m].1,
        order[g[m].0 as int],
        o0,
        v0,
        g[m].0,
        m as nat,
    ) by {
        if m < n {
            lemma_value_ids_distinct(v0, m as nat, n);
            assert(g[m] == f[m]);
        }
    }
    assert forall|id: Seq<char>| #[trigger] vals2.contains_key(id) implies exists|m: int|
        0 <= m < g.len() && id == #[trigger] lowered_value_id(v0, m as nat) by {
        if id != vid@ {
            let m = choose|m: int| 0 <= m < f.len() && id == #[trigger] lowered_value_id(v0, m as nat);
            assert(0 <= m < g.len() && id == lowered_value_id(v0, m as nat));
        } else {
            let m: int = n as int;
            assert(0 <= m < g.len() && id == lowered_value_id(v0, m as nat));
        }
    }
    assert forall|m: int| 0 <= m < g.len() implies (cs2.contains_key(#[trigger] lowered_value_id(v0, m as nat))
        <==> p.constants@.contains_key(g[m].1)) by {
        if m < n {
            lemma_value_ids_distinct(v0, m as nat, n);
            assert(g[m] == f[m]);
        }
    }
    assert forall|m: int| 0 <= m < g.len() && p.constants@.contains_key(g[m].1) implies cs2[
        #[trigger] lowered_value_id(v0, m as nat)] == p.constants@[g[m].1] by {
        if m < n {
            lemma_value_ids_distinct(v0, m as nat, n);
            assert(g[m] == f[m]);
        }
    }
    assert forall|id: Seq<char>| #[trigger] cs2.contains_key(id) implies exists|m: int|
        0 <= m < g.len() && id == #[trigger] lowered_value_id(v0, m as nat) by {
        if id != vid@ || !p.constants@.contains_key(x.1) {
            let m = choose|m: int| 0 <= m < f.len() && id == #[trigger] lowered_value_id(v0, m as nat);
            assert(0 <= m < g.len() && id == lowered_value_id(v0, m as nat));
        } else {
            let m: int = n as int;
            assert(0 <= m < g.len() && id == lowered_value_id(v0, m as nat));
        }
    }
}

fn lower_operation(
    source: &Program,
    sid: &String,
    allocator: &mut CandidateAllocator,
    value_map: &mut IdMap<String>,
    values: &mut IdMap<ImplValue>,
    constants: &mut IdMap<ConstantValue>,
    Ghost(order): Ghost<Seq<Seq<char>>>,
    Ghost(k): Ghost<nat>,
    Ghost(o0): Ghost<nat>,
    Ghost(v0): Ghost<nat>,
) -> (r: Option<ImplOperation>)
    requires
        k < order.len(),
        sid@ == order[k as int],
        old(allocator).spec_operation() == o0 + k,
        old(allocator).spec_value() == v0 + flat_results(*source, order, k).len(),
        o0 + k + 1 <= u64::MAX,
        source.operations@.contains_key(order[k as int]) ==> v0 + flat_results(*source, order, k + 1).len() <= u64::MAX,
        values_state(*source, order, flat_results(*source, order, k), o0, v0, old(value_map)@, old(values)@, old(constants)@),
    ensures
        r is Some <==> op_lowerable(*source, order, k, v0),
        r matches Some(io) ==> {
            &&& op_lowered(
                *source,
                io,
                source.operations@[order[k as int]],
                order[k as int],
                o0,
                v0,
                k,
                flat_results(*source, order, k).len(),
                value_map_after(*source, order, k + 1, v0),
            )
            &&& final(allocator).spec_operation() == o0 + k + 1
            &&& final(allocator).spec_value() == v0 + flat_results(*source, order, k + 1).len()
            &&& values_state(
                *source,
                order,
                flat_results(*source, order, k + 1),
                o0,
                v0,
                final(value_map)@,
                final(values)@,
                final(constants)@,
            )
        },
        final(allocator).spec_operation() >= old(allocator).spec_operation(),
        final(allocator).spec_value() >= old(allocator).spec_value(),
        final(allocator).spec_candidate() == old(allocator).spec_candidate(),
        final(allocator).spec_revision() == old(allocator).spec_revision(),
        final(allocator).spec_evidence() == old(allocator).spec_evidence(),
        final(allocator).spec_obligation() == old(allocator).spec_obligation(),
{
    let so = match source.operations.get(sid.as_str()) {
        Some(o) => o,
        None => {
            return None;
        },
    };
    let ghost f0 = flat_results(*source, order, k);
    let ghost f1 = flat_results(*source, order, k + 1);
    proof {
        assert(f1 =~= f0 + so.results@.map_values(|r: String| (k, r@)));
    }
    let operation_id = allocator.impl_operation();
    let mut result_ids: Vec<String> = Vec::new();
    let mut t: usize = 0;
    while t < so.results.len()
        invariant
            k < order.len(),
            old(allocator).spec_operation() == o0 + k,
            old(allocator).spec_value() == v0 + flat_results(*source, order, k).len(),
            *so == source.operations@[order[k as int]],
            source.operations@.contains_key(order[k as int]),
            f1 == f0 + so.results@.map_values(|r: String| (k, r@)),
            f0 == flat_results(*source, order, k),
            v0 + f1.len() <= u64::MAX,
            operation_id@ == lowered_op_id(o0, k),
            sid@ == order[k as int],
            t <= so.results@.len(),
            allocator.spec_operation() == o0 + k + 1,
            allocator.spec_value() == v0 + f0.len() + t,
            allocator.spec_candidate() == old(allocator).spec_candidate(),
            allocator.spec_revision() == old(allocator).spec_revision(),
            allocator.spec_evidence() == old(allocator).spec_evidence(),
            allocator.spec_obligation() == old(allocator).spec_obligation(),
            values_state(
                *source,
                order,
                f0 + so.results@.take(t as int).map_values(|r: String| (k, r@)),
                o0,
                v0,
                value_map@,
                values@,
                constants@,
            ),
            views(result_ids@) == Seq::new(t as nat, |u: int| lowered_value_id(v0, (f0.len() + u) as nat)),
            forall|u: int| 0 <= u < t ==> source.values@.contains_key((#[trigger] so.results@[u])@),
        decreases so.results.len() - t,
    {
        let rid = &so.results[t];
        let d = match source.values.get(rid.as_str()) {
            Some(d) => d,
            None => {
                return None;
            },
        };
        let ghost f = f0 + so.results@.take(t as int).map_values(|r: String| (k, r@));
        let ghost x = (k, rid@);
        proof {
            assert(f.len() == f0.len() + t);
            assert(f1.len() == f0.len() + so.results@.len());
        }
        let vid = allocator.impl_value();
        let iv = ImplValue {
            id: vid.clone(),
            ty: d.ty.copy(),
            origin: ImplValueOrigin::Operation(operation_id.clone()),
            name: copy_opt_string(&d.name),
            source_link: ImplSourceLink { spec_operation: Some(sid.clone()), spec_value: Some(rid.clone()), rewrite_rule: None },
        };
        proof {
            assert(vid@ == lowered_value_id(v0, f.len()));
            assert(value_lowered(iv, source.values@[x.1], x.1, order[x.0 as int], o0, v0, x.0, f.len()));
            lemma_values_step(*source, order, f, x, o0, v0, value_map@, values@, constants@, vid, iv);
            assert(f.push(x) =~= f0 + so.results@.take(t + 1).map_values(|r: String| (k, r@)));
        }
        value_map.insert(rid.clone(), vid.clone());
        values.insert(vid.clone(), iv);
        match source.constants.get(rid.as_str()) {
            Some(c) => {
                constants.insert(vid.clone(), copy_constant(c));
            },
            None => {},
        }
        let ghost prev = result_ids@;
        let ghost vv = vid@;
        result_ids.push(vid);
        proof {
            assert(views(result_ids@) =~= views(prev).push(vv));
            assert(vv == lowered_value_id(v0, (f0.len() + t) as nat));
            assert(views(result_ids@) =~= Seq::new((t + 1) as nat, |u: int| lowered_value_id(v0, (f0.len() + u) as nat)));
        }
        t = t + 1;
    }
    proof {
        assert(so.results@.take(so.results@.len() as int) =~= so.results@);
        assert(f0 + so.results@.take(t as int).map_values(|r: String| (k, r@)) == f1);
        assert(f1.len() >= f0.len());
    }
    let ghost m = value_map_after(*source, order, k + 1, v0);
    assert(value_map@.map_values(|s: String| s@) == m);
    let mut operands: Vec<String> = Vec::new();
    let mut i: usize = 0;
    while i < so.operands.len()
        invariant
            k < order.len(),
            *so == source.operations@[order[k as int]],
            source.operations@.contains_key(order[k as int]),
            m == value_map_after(*source, order, k + 1, v0),
            forall|u: int| 0 <= u < so.results@.len() ==> source.values@.contains_key((#[trigger] so.results@[u])@),
            old(allocator).spec_operation() == o0 + k,
            old(allocator).spec_value() == v0 + flat_results(*source, order, k).len(),
            allocator.spec_operation() == o0 + k + 1,
            allocator.spec_value() == v0 + f1.len(),
            f1 == flat_results(*source, order, k + 1),
            f0 == flat_results(*source, order, k),
            f1.len() >= f0.len(),
            allocator.spec_candidate() == old(allocator).spec_candidate(),
            allocator.spec_revision() == old(allocator).spec_revision(),
            allocator.spec_evidence() == old(allocator).spec_evidence(),
            allocator.spec_obligation() == old(allocator).spec_obligation(),
            m == value_map@.map_values(|s: String| s@),
            i <= so.operands@.len(),
            operands@.len() == i,
            forall|u: int|
                0 <= u < i ==> m.contains_key(resolved(*source, (#[trigger] so.operands@[u])@)) && operands@[u]@ == m[resolved(
                    *source,
                    so.operands@[u]@,
                )],
        decreases so.operands.len() - i,
    {
        let w = source.resolve_filled_value(so.operands[i].as_str());
        match value_map.get(w) {
            Some(x) => operands.push(x.clone()),
            None => {
                proof {
                    assert(!m.contains_key(resolved(*source, so.operands@[i as int]@)));
                }
                return None;
            },
        }
        i = i + 1;
    }
    proof {
        assert(views(operands@) =~= so.operands@.map_values(|v: String| m[resolved(*source, v@)]));
    }
    let region = match &so.region {
        Some(sr) => match lower_region(sr, value_map) {
            Some(x) => Some(x),
            None => {
                return None;
            },
        },
        None => None,
    };
    let spec_value = if so.results.len() > 0 {
        Some(so.results[0].clone())
    } else {
        None
    };
    let io = ImplOperation {
        id: operation_id,
        opcode: so.opcode,
        operands,
        results: result_ids,
        attributes: copy_attributes(&so.attributes),
        region,
        result_types: copy_types(&so.result_types),
        source_link: ImplSourceLink { spec_operation: Some(sid.clone()), spec_value, rewrite_rule: None },
    };
    proof {
        assert(views(io.results@) =~= Seq::new(so.results@.len(), |t: int| lowered_value_id(v0, (f0.len() + t) as nat)));
    }
    Some(io)
}

// ---------------------------------------------------------------------------
// The identity lowering.

/// Whether a SpecIR is complete and frozen: frozen, with an output, every
/// hole filled and no obligation open.
pub open spec fn complete_frozen(p: Program) -> bool {
    &&& p.frozen
    &&& p.outputs.spec_len() > 0
    &&& forall|i: int| 0 <= i < p.holes.kv().len() ==> (#[trigger] p.holes.kv()[i]).1.filled_with is Some
    &&& forall|i: int|
        0 <= i < p.obligations.kv().len() ==> (#[trigger] p.obligations.kv()[i]).1.status != ObligationStatus::Open
}

/// Every collected operation, parameter and output can be lowered.
pub open spec fn lowering_succeeds(p: Program, order: Seq<Seq<char>>, v0: nat) -> bool {
    let m = value_map_after(p, order, order.len(), v0);
    &&& forall|k: nat| k < order.len() ==> #[trigger] op_lowerable(p, order, k, v0)
    &&& forall|i: int| 0 <= i < p.parameters.kv().len() ==> m.contains_key(resolved(p, (#[trigger] p.parameters.kv()[i]).1@))
    &&& forall|i: int| 0 <= i < p.outputs.kv().len() ==> m.contains_key(resolved(p, (#[trigger] p.outputs.kv()[i]).1@))
}

/// The non-negativity flags of the dimension names, the later entry winning.
pub open spec fn dimension_flags(kv: Seq<(Seq<char>, Dimension)>, i: nat) -> Map<Seq<char>, bool>
    decreases i,
{
    if i == 0 {
        Map::empty()
    } else {
        dimension_flags(kv, (i - 1) as nat).insert(kv[i - 1].1.name@, kv[i - 1].1.non_negative)
    }
}

/// Whether `ip` is the identity lowering of `src` along the collected
/// operations `order`, for an allocator at `o0` operations and `v0` values.
pub open spec fn lowered_program(src: Program, order: Seq<Seq<char>>, o0: nat, v0: nat, ip: ImplProgram) -> bool {
    let n = order.len();
    let f = flat_results(src, order, n);
    let m = value_map_after(src, order, n, v0);
    &&& ip.dimensions@ == dimension_flags(src.dimensions.kv(), src.dimensions.kv().len())
    &&& constraint_views(ip.constraints@) == constraint_views(src.constraints@)
    &&& ip.numeric_contract == src.numeric_contract
    &&& views(ip.operation_order@) == Seq::new(n, |k: int| lowered_op_id(o0, k as nat))
    &&& forall|k: nat|
        k < n ==> ip.operations@.contains_key(#[trigger] lowered_op_id(o0, k)) && op_lowered(
            src,
            ip.operations@[lowered_op_id(o0, k)],
            src.operations@[order[k as int]],
            order[k as int],
            o0,
            v0,
            k,
            flat_results(src, order, k).len(),
            value_map_after(src, order, k + 1, v0),
        )
    &&& forall|id: Seq<char>| #[trigger] ip.operations@.contains_key(id) ==> exists|k: nat| k < n && id == #[trigger] lowered_op_id(o0, k)
    &&& values_built(src, order, f, o0, v0, ip.values@, ip.constants@)
    &&& kv_related(src.parameters.kv(), ip.parameters.kv(), |a: String, b: String| b@ == m[resolved(src, a@)])
    &&& ip.outputs.kv().len() == src.outputs.kv().len()
    &&& forall|i: int|
        0 <= i < ip.outputs.kv().len() ==> {
            &&& (#[trigger] ip.outputs.kv()[i]).0 == src.outputs.kv()[i].0
            &&& ip.outputs.kv()[i].1.name@ == src.outputs.kv()[i].0
            &&& ip.outputs.kv()[i].1.value@ == m[resolved(src, src.outputs.kv()[i].1@)]
            &&& ip.values@.contains_key(ip.outputs.kv()[i].1.value@)
            &&& ip.outputs.kv()[i].1.ty@ == ip.values@[ip.outputs.kv()[i].1.value@].ty@
        }
}

fn all_holes_filled(p: &Program) -> (r: bool)
    ensures
        r == (forall|i: int| 0 <= i < p.holes.kv().len() ==> (#[trigger] p.holes.kv()[i]).1.filled_with is Some),
{
    let n = p.holes.len();
    let mut i: usize = 0;
    while i < n
        invariant
            n == p.holes.kv().len(),
            i <= n,
            forall|j: int| 0 <= j < i ==> (#[trigger] p.holes.kv()[j]).1.filled_with is Some,
        decreases n - i,
    {
        let (_, hole) = p.holes.entry_at(i);
        if hole.filled_with.is_none() {
            return false;
        }
        i = i + 1;
    }
    true
}

fn no_open_obligation(p: &Program) -> (r: bool)
    ensures
        r == (forall|i: int|
            0 <= i < p.obligations.kv().len() ==> (#[trigger] p.obligations.kv()[i]).1.status != ObligationStatus::Open),
{
    let n = p.obligations.len();
    let mut i: usize = 0;
    while i < n
        invariant
            n == p.obligations.kv().len(),
            i <= n,
            forall|j: int| 0 <= j < i ==> (#[trigger] p.obligations.kv()[j]).1.status != ObligationStatus::Open,
        decreases n - i,
    {
        let (_, obligation) = p.obligations.entry_at(i);
        if obligation.status == ObligationStatus::Open {
            return false;
        }
        i = i + 1;
    }
    true
}

fn map_values_in_order(m: &IdMap<String>, out: &mut Vec<String>)
    ensures
        views(final(out)@) == views(old(out)@) + m.kv().map_values(|e: (Seq<char>, String)| e.1@),
{
    let n = m.len();
    let ghost start = views(out@);
    let mut i: usize = 0;
    while i < n
        invariant
            n == m.kv().len(),
            i <= n,
            views(out@) == start + m.kv().take(i as int).map_values(|e: (Seq<char>, String)| e.1@),
        decreases n - i,
    {
        let (_, v) = m.entry_at(i);
        let ghost prev = out@;
        out.push(v.clone());
        proof {
            assert(views(out@) =~= views(prev).push(v@));
            assert(m.kv().take(i + 1).map_values(|e: (Seq<char>, String)| e.1@) =~= m.kv().take(i as int).map_values(
                |e: (Seq<char>, String)| e.1@,
            ).push(m.kv()[i as int].1@));
        }
        i = i + 1;
    }
    proof {
        assert(m.kv().take(n as int) =~= m.kv());
    }
}

fn collect_roots(p: &Program) -> (r: Vec<String>)
    ensures
        views(r@) == search_roots(*p),
{
    let mut roots: Vec<String> = Vec::new();
    proof {
        assert(views(roots@) =~= Seq::<Seq<char>>::empty());
    }
    map_values_in_order(&p.parameters, &mut roots);
    map_values_in_order(&p.outputs, &mut roots);
    proof {
        assert(views(roots@) =~= search_roots(*p));
    }
    roots
}

fn collect_order(p: &Program, Ghost(c): Ghost<Set<Seq<char>>>, Ghost(rank): Ghost<spec_fn(Seq<char>) -> nat>) -> (r:
    AgentResult<Vec<String>>)
    requires
        search_certified(*p, c, rank),
    ensures
        match search_from(*p, rank, search_roots(*p), 0, Set::empty(), Seq::empty()) {
            Ok((_, ord)) => r matches Ok(v) && views(v@) == ord,
            Err(code) => r matches Err(e) && e.code == code,
        },
{
    let roots = collect_roots(p);
    let ghost rs = search_roots(*p);
    let mut seen: IdMap<()> = IdMap::new();
    let mut order: Vec<String> = Vec::new();
    let ghost whole = search_from(*p, rank, rs, 0, Set::empty(), Seq::empty());
    proof {
        assert(seen@.dom() =~= Set::<Seq<char>>::empty());
        assert(views(order@) =~= Seq::<Seq<char>>::empty());
    }
    let mut i: usize = 0;
    while i < roots.len()
        invariant
            views(roots@) == rs,
            rs == search_roots(*p),
            search_certified(*p, c, rank),
            i <= roots@.len(),
            whole == search_from(*p, rank, rs, 0, Set::empty(), Seq::empty()),
            search_from(*p, rank, rs, i as nat, seen@.dom(), views(order@)) == whole,
        decreases roots.len() - i,
    {
        proof {
            assert(views(roots@)[i as int] == roots@[i as int]@);
        }
        let ghost fuel = fuel_for(*p, rank, rs[i as int]);
        match visit_source_value(p, roots[i].as_str(), &mut seen, &mut order, Ghost(c), Ghost(rank), Ghost(fuel)) {
            Ok(()) => {},
            Err(e) => {
                return Err(e);
            },
        }
        i = i + 1;
    }
    Ok(order)
}

fn lower_dimensions(p: &Program) -> (r: IdMap<bool>)
    ensures
        r@ == dimension_flags(p.dimensions.kv(), p.dimensions.kv().len()),
{
    let n = p.dimensions.len();
    let mut out: IdMap<bool> = IdMap::new();
    let mut i: usize = 0;
    while i < n
        invariant
            n == p.dimensions.kv().len(),
            i <= n,
            out@ == dimension_flags(p.dimensions.kv(), i as nat),
        decreases n - i,
    {
        let (_, d) = p.dimensions.entry_at(i);
        out.insert(d.name.clone(), d.non_negative);
        i = i + 1;
    }
    out
}

fn copy_constraints(v: &Vec<ShapeConstraint>) -> (r: Vec<ShapeConstraint>)
    ensures
        constraint_views(r@) == constraint_views(v@),
{
    let mut out: Vec<ShapeConstraint> = Vec::new();
    let mut i: usize = 0;
    while i < v.len()
        invariant
            i <= v@.len(),
            out@.len() == i,
            forall|j: int| 0 <= j < i ==> (#[trigger] out@[j])@ == v@[j]@,
        decreases v.len() - i,
    {
        out.push(v[i].copy());
        i = i + 1;
    }
    proof {
        assert(constraint_views(out@) =~= constraint_views(v@));
    }
    out
}

proof fn lemma_value_map_range(f: Seq<(nat, Seq<char>)>, v0: nat, key: Seq<char>)
    requires
        value_map_of(f, v0).contains_key(key),
    ensures
        exists|n: int| 0 <= n < f.len() && value_map_of(f, v0)[key] == #[trigger] lowered_value_id(v0, n as nat),
    decreases f.len(),
{
    if f.len() > 0 {
        if key == f.last().1 {
            let n: int = f.len() - 1;
            assert(value_map_of(f, v0)[key] == lowered_value_id(v0, n as nat));
        } else {
            lemma_value_map_range(f.drop_last(), v0, key);
            let n = choose|n: int| 0 <= n < f.drop_last().len() && value_map_of(f.drop_last(), v0)[key]
                == #[trigger] lowered_value_id(v0, n as nat);
            assert(value_map_of(f, v0)[key] == lowered_value_id(v0, n as nat));
        }
    }
}

fn lower_parameters(source: &Program, value_map: &IdMap<String>) -> (r: Option<IdMap<String>>)
    ensures
        r is Some <==> forall|i: int|
            0 <= i < source.parameters.kv().len() ==> value_map@.map_values(|s: String| s@).contains_key(
                resolved(*source, (#[trigger] source.parameters.kv()[i]).1@),
            ),
        r matches Some(x) ==> kv_related(
            source.parameters.kv(),
            x.kv(),
            |a: String, b: String| b@ == value_map@.map_values(|s: String| s@)[resolved(*source, a@)],
        ),
{
    let ghost m = value_map@.map_values(|s: String| s@);
    let np = source.parameters.len();
    let mut parameters: IdMap<String> = IdMap::new();
    let mut i: usize = 0;
    while i < np
        invariant
            np == source.parameters.kv().len(),
            sorted_kv(source.parameters.kv()),
            m == value_map@.map_values(|s: String| s@),
            i <= np,
            parameters.kv().len() == i,
            forall|j: int|
                0 <= j < i ==> (#[trigger] parameters.kv()[j]).0 == source.parameters.kv()[j].0 && m.contains_key(
                    resolved(*source, source.parameters.kv()[j].1@),
                ) && parameters.kv()[j].1@ == m[resolved(*source, source.parameters.kv()[j].1@)],
        decreases np - i,
    {
        let (name, v) = source.parameters.entry_at(i);
        let w = source.resolve_filled_value(v.as_str());
        match value_map.get(w) {
            Some(x) => {
                proof {
                    if i > 0 {
                        assert(parameters.kv().last().0 == source.parameters.kv()[i - 1].0);
                        assert(seq_less(source.parameters.kv()[i - 1].0, source.parameters.kv()[i as int].0));
                    }
                }
                parameters.push_ordered(name.clone(), x.clone());
            },
            None => {
                proof {
                    assert(!m.contains_key(resolved(*source, source.parameters.kv()[i as int].1@)));
                }
                return None;
            },
        }
        i = i + 1;
    }
    proof {
        assert forall|j: int| 0 <= j < np implies m.contains_key(resolved(*source, (#[trigger] source.parameters.kv()[j]).1@)) by {
            assert(parameters.kv()[j].0 == source.parameters.kv()[j].0);
        }
    }
    Some(parameters)
}

fn lower_outputs(
    source: &Program,
    value_map: &IdMap<String>,
    values: &IdMap<ImplValue>,
    Ghost(ord): Ghost<Seq<Seq<char>>>,
    Ghost(f): Ghost<Seq<(nat, Seq<char>)>>,
    Ghost(o0): Ghost<nat>,
    Ghost(v0): Ghost<nat>,
) -> (r: Option<IdMap<ImplOutput>>)
    requires
        value_map@.map_values(|s: String| s@) == value_map_of(f, v0),
        forall|n: int| 0 <= n < f.len() ==> values@.contains_key(#[trigger] lowered_value_id(v0, n as nat)),
    ensures
        r is Some <==> forall|i: int|
            0 <= i < source.outputs.kv().len() ==> value_map@.map_values(|s: String| s@).contains_key(
                resolved(*source, (#[trigger] source.outputs.kv()[i]).1@),
            ),
        r matches Some(x) ==> {
            &&& x.kv().len() == source.outputs.kv().len()
            &&& forall|j: int|
                0 <= j < x.kv().len() ==> {
                    &&& (#[trigger] x.kv()[j]).0 == source.outputs.kv()[j].0
                    &&& x.kv()[j].1.name@ == source.outputs.kv()[j].0
                    &&& x.kv()[j].1.value@ == value_map@.map_values(|s: String| s@)[resolved(
                        *source,
                        source.outputs.kv()[j].1@,
                    )]
                    &&& values@.contains_key(x.kv()[j].1.value@)
                    &&& x.kv()[j].1.ty@ == values@[x.kv()[j].1.value@].ty@
                }
        },
{
    let ghost m = value_map@.map_values(|s: String| s@);
    let no = source.outputs.len();
    let mut outputs: IdMap<ImplOutput> = IdMap::new();
    let mut t: usize = 0;
    while t < no
        invariant
            no == source.outputs.kv().len(),
            sorted_kv(source.outputs.kv()),
            m == value_map@.map_values(|s: String| s@),
            m == value_map_of(f, v0),
            forall|n: int| 0 <= n < f.len() ==> values@.contains_key(#[trigger] lowered_value_id(v0, n as nat)),
            t <= no,
            outputs.kv().len() == t,
            forall|j: int|
                0 <= j < t ==> {
                    &&& (#[trigger] outputs.kv()[j]).0 == source.outputs.kv()[j].0
                    &&& outputs.kv()[j].1.name@ == source.outputs.kv()[j].0
                    &&& m.contains_key(resolved(*source, source.outputs.kv()[j].1@))
                    &&& outputs.kv()[j].1.value@ == m[resolved(*source, source.outputs.kv()[j].1@)]
                    &&& values@.contains_key(outputs.kv()[j].1.value@)
                    &&& outputs.kv()[j].1.ty@ == values@[outputs.kv()[j].1.value@].ty@
                },
        decreases no - t,
    {
        let (name, v) = source.outputs.entry_at(t);
        let w = source.resolve_filled_value(v.as_str());
        let x = match value_map.get(w) {
            Some(x) => x,
            None => {
                proof {
                    assert(!m.contains_key(resolved(*source, source.outputs.kv()[t as int].1@)));
                }
                return None;
            },
        };
        proof {
            lemma_value_map_range(f, v0, w@);
            let n = choose|n: int| 0 <= n < f.len() && value_map_of(f, v0)[w@] == #[trigger] lowered_value_id(v0, n as nat);
            assert(values@.contains_key(lowered_value_id(v0, n as nat)));
        }
        let ty = match values.get(x.as_str()) {
            Some(value) => value.ty.copy(),
            None => {
                proof {
                    assert(false);
                }
                return None;
            },
        };
        proof {
            if t > 0 {
                assert(outputs.kv().last().0 == source.outputs.kv()[t - 1].0);
                assert(seq_less(source.outputs.kv()[t - 1].0, source.outputs.kv()[t as int].0));
            }
        }
        outputs.push_ordered(name.clone(), ImplOutput { name: name.clone(), value: x.clone(), ty });
        t = t + 1;
    }
    proof {
        assert forall|j: int| 0 <= j < no implies m.contains_key(resolved(*source, (#[trigger] source.outputs.kv()[j]).1@)) by {
            assert(outputs.kv()[j].0 == source.outputs.kv()[j].0);
        }
    }
    Some(outputs)
}

fn lowering_spec_error() -> (r: AgentError)
    ensures
        r.code == ErrorCode::SpecNotFrozen,
{
    AgentError::new(
        ErrorCode::SpecNotFrozen,
        "candidate creation requires a complete frozen SpecIR with all holes and obligations closed",
    )
}

/// Deterministically lowers a complete frozen SpecIR into a separate
/// identity ImplIR. The operations that the parameters and outputs depend
/// on are copied dependency-first under fresh allocator identities, each
/// operand, capture, parameter and output redirected to the fresh identity
/// of the value it denotes. An incomplete or unfrozen SpecIR is refused; a
/// missing, hole-backed or unmapped value fails the lowering.
#[verifier::loop_isolation(false)]
pub fn identity_lower(source: &Program, allocator: &mut CandidateAllocator) -> (r: AgentResult<ImplProgram>)
    requires
        complete_frozen(*source) ==> search_terminates(*source),
        complete_frozen(*source) ==> (lowering_order(*source) matches Ok(order) ==> {
            &&& old(allocator).spec_operation() + order.len() <= u64::MAX
            &&& old(allocator).spec_value() + flat_results(*source, order, order.len()).len() <= u64::MAX
        }),
    ensures
        !complete_frozen(*source) ==> (r matches Err(e) && e.code == ErrorCode::SpecNotFrozen),
        complete_frozen(*source) ==> match lowering_order(*source) {
            Err(c) => r matches Err(e) && e.code == c,
            Ok(order) => if lowering_succeeds(*source, order, old(allocator).spec_value() as nat) {
                &&& r matches Ok(ip) && lowered_program(
                    *source,
                    order,
                    old(allocator).spec_operation() as nat,
                    old(allocator).spec_value() as nat,
                    ip,
                )
                &&& final(allocator).spec_operation() == old(allocator).spec_operation() + order.len()
                &&& final(allocator).spec_value() == old(allocator).spec_value() + flat_results(
                    *source,
                    order,
                    order.len(),
                ).len()
            } else {
                r matches Err(e) && e.code == ErrorCode::ImplVerificationFailed
            },
        },
        final(allocator).spec_operation() >= old(allocator).spec_operation(),
        final(allocator).spec_value() >= old(allocator).spec_value(),
        final(allocator).spec_candidate() == old(allocator).spec_candidate(),
        final(allocator).spec_revision() == old(allocator).spec_revision(),
        final(allocator).spec_evidence() == old(allocator).spec_evidence(),
        final(allocator).spec_obligation() == old(allocator).spec_obligation(),
{
    if !source.frozen || source.outputs.len() == 0 {
        return Err(lowering_spec_error());
    }
    if !all_holes_filled(source) || !no_open_obligation(source) {
        return Err(lowering_spec_error());
    }
    let ghost cert = choose|cert: (Set<Seq<char>>, spec_fn(Seq<char>) -> nat)| #[trigger] search_certified(*source, cert.0, cert.1);
    proof {
        assert(search_certified(*source, cert.0, cert.1));
    }
    let order = match collect_order(source, Ghost(cert.0), Ghost(cert.1)) {
        Ok(o) => o,
        Err(e) => {
            return Err(e);
        },
    };
    let ghost ord = views(order@);
    let ghost o0 = allocator.spec_operation() as nat;
    let ghost v0 = allocator.spec_value() as nat;
    let ghost kk = ord.len();
    proof {
        assert(lowering_order(*source) == Ok::<Seq<Seq<char>>, ErrorCode>(ord));
    }
    let mut value_map: IdMap<String> = IdMap::new();
    let mut values: IdMap<ImplValue> = IdMap::new();
    let mut constants: IdMap<ConstantValue> = IdMap::new();
    let mut operations: IdMap<ImplOperation> = IdMap::new();
    let mut operation_order: Vec<String> = Vec::new();
    proof {
        assert(flat_results(*source, ord, 0) =~= Seq::<(nat, Seq<char>)>::empty());
        assert(value_map@.map_values(|s: String| s@) =~= value_map_of(Seq::<(nat, Seq<char>)>::empty(), v0));
        assert(views(operation_order@) =~= Seq::new(0, |k: int| lowered_op_id(o0, k as nat)));
    }
    let mut k: usize = 0;
    while k < order.len()
        invariant
            ord == views(order@),
            kk == ord.len(),
            lowering_order(*source) == Ok::<Seq<Seq<char>>, ErrorCode>(ord),
            o0 + kk <= u64::MAX,
            v0 + flat_results(*source, ord, kk).len() <= u64::MAX,
            k <= kk,
            allocator.spec_operation() == o0 + k,
            allocator.spec_value() == v0 + flat_results(*source, ord, k as nat).len(),
            o0 == old(allocator).spec_operation(),
            v0 == old(allocator).spec_value(),
            allocator.spec_candidate() == old(allocator).spec_candidate(),
            allocator.spec_revision() == old(allocator).spec_revision(),
            allocator.spec_evidence() == old(allocator).spec_evidence(),
            allocator.spec_obligation() == old(allocator).spec_obligation(),
            values_state(*source, ord, flat_results(*source, ord, k as nat), o0, v0, value_map@, values@, constants@),
            forall|j: nat| j < k ==> #[trigger] op_lowerable(*source, ord, j, v0),
            forall|j: nat|
                j < k ==> operations@.contains_key(#[trigger] lowered_op_id(o0, j)) && op_lowered(
                    *source,
                    operations@[lowered_op_id(o0, j)],
                    source.operations@[ord[j as int]],
                    ord[j as int],
                    o0,
                    v0,
                    j,
                    flat_results(*source, ord, j).len(),
                    value_map_after(*source, ord, j + 1, v0),
                ),
            forall|id: Seq<char>| #[trigger] operations@.contains_key(id) ==> exists|j: nat| j < k && id == #[trigger] lowered_op_id(o0, j),
            views(operation_order@) == Seq::new(k as nat, |j: int| lowered_op_id(o0, j as nat)),
        decreases kk - k,
    {
        proof {
            lemma_flat_grows(*source, ord, (k + 1) as nat, kk);
            assert(ord[k as int] == order@[k as int]@);
        }
        let io = match lower_operation(
            source,
            &order[k],
            allocator,
            &mut value_map,
            &mut values,
            &mut constants,
            Ghost(ord),
            Ghost(k as nat),
            Ghost(o0),
            Ghost(v0),
        ) {
            Some(io) => io,
            None => {
                proof {
                    assert(!op_lowerable(*source, ord, k as nat, v0));
                }
                return Err(lowering_error());
            },
        };
        let oid = io.id.clone();
        let order_id = io.id.clone();
        let ghost prev_ops = operations@;
        proof {
            assert forall|j: nat| j < k implies lowered_op_id(o0, j) != oid@ by {
                lemma_op_ids_distinct(o0, j, k as nat);
            }
        }
        operations.insert(oid, io);
        let ghost prev_order = operation_order@;
        let ghost order_view = order_id@;
        operation_order.push(order_id);
        proof {
            assert(order_view == lowered_op_id(o0, k as nat));
            assert(views(operation_order@) =~= views(prev_order).push(order_view));
            assert(views(operation_order@) =~= Seq::new((k + 1) as nat, |j: int| lowered_op_id(o0, j as nat)));
            assert forall|id: Seq<char>| #[trigger] operations@.contains_key(id) implies exists|j: nat|
                j < k + 1 && id == #[trigger] lowered_op_id(o0, j) by {
                if id != lowered_op_id(o0, k as nat) {
                    let j = choose|j: nat| j < k && id == #[trigger] lowered_op_id(o0, j);
                    assert(j < k + 1 && id == lowered_op_id(o0, j));
                } else {
                    let j: nat = k as nat;
                    assert(j < k + 1 && id == lowered_op_id(o0, j));
                }
            }
        }
        k = k + 1;
    }
let ghost m = value_map_after(*source, ord, kk, v0);
    let ghost f = flat_results(*source, ord, kk);
    let parameters = match lower_parameters(source, &value_map) {
        Some(x) => x,
        None => {
            return Err(lowering_error());
        },
    };
    let outputs = match lower_outputs(source, &value_map, &values, Ghost(ord), Ghost(f), Ghost(o0), Ghost(v0)) {
        Some(x) => x,
        None => {
            return Err(lowering_error());
        },
    };
    let result = ImplProgram {
        dimensions: lower_dimensions(source),
        operations,
        operation_order,
        values,
        parameters,
        constants,
        outputs,
        constraints: copy_constraints(&source.constraints),
        numeric_contract: clone_json(&source.numeric_contract),
    };
    proof {
        assert(k == kk);
        assert(forall|j: nat| j < kk ==> #[trigger] op_lowerable(*source, ord, j, v0));
        assert(lowering_succeeds(*source, ord, v0));
    }
    Ok(result)
}

// ---------------------------------------------------------------------------
// Viewing an implementation as a SpecIR program.

/// The identity map on values.
pub open spec fn same_values() -> Map<Seq<char>, Seq<char>> {
    Map::new(|k: Seq<char>| true, |k: Seq<char>| k)
}

/// The identity of the `i`-th dimension of an adapted program.
pub open spec fn adapted_dimension_id(i: nat) -> Seq<char> {
    "id"@ + decimal(i + 1)
}

/// Whether a SpecIR operation carries an implementation operation unchanged.
pub open spec fn op_raised(so: Operation, io: ImplOperation) -> bool {
    &&& so.id@ == io.id@
    &&& so.opcode == io.opcode
    &&& views(so.operands@) == views(io.operands@)
    &&& views(so.results@) == views(io.results@)
    &&& so.attributes.kv() == io.attributes.kv()
    &&& match (io.region, so.region) {
        (None, None) => true,
        (Some(ir), Some(sr)) => region_lowered(ir, sr, same_values()),
        _ => false,
    }
    &&& so.provenance@ == "impl"@
    &&& type_views(so.result_types@) == type_views(io.result_types@)
}

/// Whether a SpecIR value definition carries an implementation value unchanged.
pub open spec fn value_raised(d: ValueDef, v: ImplValue) -> bool {
    &&& d.id@ == v.id@
    &&& d.ty@ == v.ty@
    &&& (d.origin matches ValueOrigin::Operation(o) && (v.origin matches ImplValueOrigin::Operation(q) && o@ == q@))
    &&& opt_view(d.name) == opt_view(v.name)
}

/// Whether `p` is the frozen SpecIR view of the implementation `ip`.
pub open spec fn adapted_program(ip: ImplProgram, p: Program) -> bool {
    let n = ip.dimensions.kv().len();
    &&& forall|i: int|
        0 <= i < n ==> p.dimensions@.contains_key(#[trigger] adapted_dimension_id(i as nat)) && {
            let d = p.dimensions@[adapted_dimension_id(i as nat)];
            &&& d.id@ == adapted_dimension_id(i as nat)
            &&& d.name@ == ip.dimensions.kv()[i].0
            &&& d.non_negative == ip.dimensions.kv()[i].1
            &&& d.provenance@ == "impl"@
        }
    &&& forall|k: Seq<char>| #[trigger] p.dimensions@.contains_key(k) ==> exists|i: int| 0 <= i < n && k == #[trigger] adapted_dimension_id(i as nat)
    &&& p.dimension_names.kv().len() == n
    &&& forall|i: int|
        0 <= i < n ==> (#[trigger] p.dimension_names.kv()[i]).0 == ip.dimensions.kv()[i].0 && p.dimension_names.kv()[i].1@
            == adapted_dimension_id(i as nat)
    &&& kv_related(ip.operations.kv(), p.operations.kv(), |a: ImplOperation, b: Operation| op_raised(b, a))
    &&& views(p.operation_order@) == views(ip.operation_order@)
    &&& kv_related(ip.values.kv(), p.values.kv(), |a: ImplValue, b: ValueDef| value_raised(b, a))
    &&& kv_related(ip.parameters.kv(), p.parameters.kv(), |a: String, b: String| b@ == a@)
    &&& p.constants.kv() == ip.constants.kv()
    &&& kv_related(ip.outputs.kv(), p.outputs.kv(), |a: ImplOutput, b: String| b@ == a.value@)
    &&& p.holes@ == Map::<Seq<char>, Hole>::empty()
    &&& constraint_views(p.constraints@) == constraint_views(ip.constraints@)
    &&& p.obligations@ == Map::<Seq<char>, ProofObligation>::empty()
    &&& p.numeric_contract == ip.numeric_contract
    &&& p.frozen
}

fn raise_region_value(v: &ImplRegionValue) -> (r: RegionValue)
    ensures
        region_value_lowered(*v, r, same_values()),
{
    match v {
        ImplRegionValue::Argument(name) => RegionValue::Argument(name.clone()),
        ImplRegionValue::Local(name) => RegionValue::Local(name.clone()),
        ImplRegionValue::Capture(value) => RegionValue::Capture(value.clone()),
    }
}

fn raise_region(region: &ImplRegion) -> (r: Region)
    ensures
        region_lowered(*region, r, same_values()),
{
    let mut arguments: Vec<BlockArgument> = Vec::new();
    let mut i: usize = 0;
    while i < region.arguments.len()
        invariant
            i <= region.arguments@.len(),
            arguments@.len() == i,
            forall|j: int|
                0 <= j < i ==> (#[trigger] region.arguments@[j]).name@ == arguments@[j].name@ && region.arguments@[j].ty@
                    == arguments@[j].ty@,
        decreases region.arguments.len() - i,
    {
        let a = &region.arguments[i];
        arguments.push(BlockArgument { name: a.name.clone(), ty: a.ty.copy() });
        i = i + 1;
    }
    let captures = copy_strings(&region.captures);
    let mut operations: Vec<RegionOperation> = Vec::new();
    let mut j: usize = 0;
    while j < region.operations.len()
        invariant
            j <= region.operations@.len(),
            operations@.len() == j,
            forall|t: int| 0 <= t < j ==> region_op_lowered(#[trigger] region.operations@[t], operations@[t], same_values()),
        decreases region.operations.len() - j,
    {
        let op = &region.operations[j];
        let mut operands: Vec<RegionValue> = Vec::new();
        let mut q: usize = 0;
        while q < op.operands.len()
            invariant
                q <= op.operands@.len(),
                operands@.len() == q,
                forall|u: int| 0 <= u < q ==> region_value_lowered(#[trigger] op.operands@[u], operands@[u], same_values()),
            decreases op.operands.len() - q,
        {
            operands.push(raise_region_value(&op.operands[q]));
            q = q + 1;
        }
        operations.push(RegionOperation {
            result: op.result.clone(),
            opcode: op.opcode,
            operands,
            attributes: copy_attributes(&op.attributes),
            result_type: op.result_type.copy(),
        });
        j = j + 1;
    }
    let r = Region {
        arguments,
        captures,
        operations,
        yield_value: raise_region_value(&region.yield_value),
        yield_type: region.yield_type.copy(),
    };
    proof {
        assert(views(region.captures@) =~= r.captures@.map_values(|c: String| same_values()[c@]));
    }
    r
}

fn raise_operations(m: &IdMap<ImplOperation>) -> (r: IdMap<Operation>)
    ensures
        kv_related(m.kv(), r.kv(), |a: ImplOperation, b: Operation| op_raised(b, a)),
{
    let n = m.len();
    let mut out: IdMap<Operation> = IdMap::new();
    let mut i: usize = 0;
    while i < n
        invariant
            n == m.kv().len(),
            sorted_kv(m.kv()),
            i <= n,
            out.kv().len() == i,
            forall|j: int| 0 <= j < i ==> #[trigger] out.kv()[j].0 == m.kv()[j].0 && {
                let a = m.kv()[j].1;
                let b = out.kv()[j].1;
                op_raised(b, a)
            },
        decreases n - i,
    {
        let (k, a) = m.entry_at(i);
        let b = raise_operation(a);
        proof {
            if i > 0 {
                assert(out.kv().last().0 == m.kv()[i - 1].0);
                assert(seq_less(m.kv()[i - 1].0, m.kv()[i as int].0));
            }
        }
        out.push_ordered(k.clone(), b);
        i = i + 1;
    }
    out
}

fn raise_values(m: &IdMap<ImplValue>) -> (r: IdMap<ValueDef>)
    ensures
        kv_related(m.kv(), r.kv(), |a: ImplValue, b: ValueDef| value_raised(b, a)),
{
    let n = m.len();
    let mut out: IdMap<ValueDef> = IdMap::new();
    let mut i: usize = 0;
    while i < n
        invariant
            n == m.kv().len(),
            sorted_kv(m.kv()),
            i <= n,
            out.kv().len() == i,
            forall|j: int| 0 <= j < i ==> #[trigger] out.kv()[j].0 == m.kv()[j].0 && {
                let a = m.kv()[j].1;
                let b = out.kv()[j].1;
                value_raised(b, a)
            },
        decreases n - i,
    {
        let (k, a) = m.entry_at(i);
        let b = raise_value(a);
        proof {
            if i > 0 {
                assert(out.kv().last().0 == m.kv()[i - 1].0);
                assert(seq_less(m.kv()[i - 1].0, m.kv()[i as int].0));
            }
        }
        out.push_ordered(k.clone(), b);
        i = i + 1;
    }
    out
}

fn copy_string_map(m: &IdMap<String>) -> (r: IdMap<String>)
    ensures
        kv_related(m.kv(), r.kv(), |a: String, b: String| b@ == a@),
{
    let n = m.len();
    let mut out: IdMap<String> = IdMap::new();
    let mut i: usize = 0;
    while i < n
        invariant
            n == m.kv().len(),
            sorted_kv(m.kv()),
            i <= n,
            out.kv().len() == i,
            forall|j: int| 0 <= j < i ==> #[trigger] out.kv()[j].0 == m.kv()[j].0 && {
                let a = m.kv()[j].1;
                let b = out.kv()[j].1;
                b@ == a@
            },
        decreases n - i,
    {
        let (k, a) = m.entry_at(i);
        let b = a.clone();
        proof {
            if i > 0 {
                assert(out.kv().last().0 == m.kv()[i - 1].0);
                assert(seq_less(m.kv()[i - 1].0, m.kv()[i as int].0));
            }
        }
        out.push_ordered(k.clone(), b);
        i = i + 1;
    }
    out
}

fn raise_outputs(m: &IdMap<ImplOutput>) -> (r: IdMap<String>)
    ensures
        kv_related(m.kv(), r.kv(), |a: ImplOutput, b: String| b@ == a.value@),
{
    let n = m.len();
    let mut out: IdMap<String> = IdMap::new();
    let mut i: usize = 0;
    while i < n
        invariant
            n == m.kv().len(),
            sorted_kv(m.kv()),
            i <= n,
            out.kv().len() == i,
            forall|j: int| 0 <= j < i ==> #[trigger] out.kv()[j].0 == m.kv()[j].0 && {
                let a = m.kv()[j].1;
                let b = out.kv()[j].1;
                b@ == a.value@
            },
        decreases n - i,
    {
        let (k, a) = m.entry_at(i);
        let b = a.value.clone();
        proof {
            if i > 0 {
                assert(out.kv().last().0 == m.kv()[i - 1].0);
                assert(seq_less(m.kv()[i - 1].0, m.kv()[i as int].0));
            }
        }
        out.push_ordered(k.clone(), b);
        i = i + 1;
    }
    out
}

fn copy_constants(m: &IdMap<ConstantValue>) -> (r: IdMap<ConstantValue>)
    ensures
        r.kv() == m.kv(),
{
    let n = m.len();
    let mut out: IdMap<ConstantValue> = IdMap::new();
    let mut i: usize = 0;
    while i < n
        invariant
            n == m.kv().len(),
            sorted_kv(m.kv()),
            i <= n,
            out.kv() == m.kv().take(i as int),
        decreases n - i,
    {
        let (k, v) = m.entry_at(i);
        proof {
            if i > 0 {
                assert(out.kv().last() == m.kv()[i - 1]);
                assert(seq_less(m.kv()[i - 1].0, m.kv()[i as int].0));
            }
        }
        out.push_ordered(k.clone(), copy_constant(v));
        proof {
            assert(m.kv().take(i + 1) =~= m.kv().take(i as int).push(m.kv()[i as int]));
        }
        i = i + 1;
    }
    proof {
        assert(m.kv().take(n as int) =~= m.kv());
    }
    out
}

fn raise_operation(io: &ImplOperation) -> (r: Operation)
    ensures
        op_raised(r, *io),
{
    let region = match &io.region {
        Some(ir) => Some(raise_region(ir)),
        None => None,
    };
    proof {
        reveal_strlit("impl");
    }
    Operation {
        id: io.id.clone(),
        opcode: io.opcode,
        operands: copy_strings(&io.operands),
        results: copy_strings(&io.results),
        attributes: copy_attributes(&io.attributes),
        region,
        provenance: String::from_str("impl"),
        result_types: copy_types(&io.result_types),
    }
}

fn raise_value(v: &ImplValue) -> (r: ValueDef)
    ensures
        value_raised(r, *v),
{
    let origin = match &v.origin {
        ImplValueOrigin::Operation(o) => ValueOrigin::Operation(o.clone()),
    };
    ValueDef { id: v.id.clone(), ty: v.ty.copy(), origin, name: copy_opt_string(&v.name) }
}

/// Builds a frozen SpecIR view of an implementation for the SpecIR
/// verifier and evaluator, without changing ImplIR's separate data model:
/// every node keeps its identity, dimensions are renamed `id1`, `id2`, ...
/// in name order, and there are no holes or obligations.
pub fn impl_as_program(program: &ImplProgram) -> (r: Program)
    ensures
        adapted_program(*program, r),
{
    let n = program.dimensions.len();
    let mut dimensions: IdMap<Dimension> = IdMap::new();
    let mut dimension_names: IdMap<String> = IdMap::new();
    let mut i: usize = 0;
    proof {
        reveal_strlit("id");
        reveal_strlit("impl");
    }
    while i < n
        invariant
            n == program.dimensions.kv().len(),
            sorted_kv(program.dimensions.kv()),
            i <= n,
            forall|j: int|
                0 <= j < i ==> dimensions@.contains_key(#[trigger] adapted_dimension_id(j as nat)) && {
                    let d = dimensions@[adapted_dimension_id(j as nat)];
                    &&& d.id@ == adapted_dimension_id(j as nat)
                    &&& d.name@ == program.dimensions.kv()[j].0
                    &&& d.non_negative == program.dimensions.kv()[j].1
                    &&& d.provenance@ == "impl"@
                },
            forall|k: Seq<char>| #[trigger] dimensions@.contains_key(k) ==> exists|j: int| 0 <= j < i && k == #[trigger] adapted_dimension_id(j as nat),
            dimension_names.kv().len() == i,
            forall|j: int|
                0 <= j < i ==> (#[trigger] dimension_names.kv()[j]).0 == program.dimensions.kv()[j].0
                    && dimension_names.kv()[j].1@ == adapted_dimension_id(j as nat),
        decreases n - i,
    {
        let (name, non_negative) = program.dimensions.entry_at(i);
        let id = prefixed_decimal("id", (i + 1) as u64);
        let ghost prev = dimensions@;
        proof {
            assert forall|j: int| 0 <= j < i implies #[trigger] adapted_dimension_id(j as nat) != id@ by {
                crate::ids::lemma_allocated_ids_distinct("id"@, (j + 1) as nat, (i + 1) as nat);
            }
        }
        dimensions.insert(
            id.clone(),
            Dimension { id: id.clone(), name: name.clone(), non_negative: *non_negative, provenance: String::from_str("impl") },
        );
        proof {
            assert forall|k: Seq<char>| #[trigger] dimensions@.contains_key(k) implies exists|j: int|
                0 <= j < i + 1 && k == #[trigger] adapted_dimension_id(j as nat) by {
                if k != id@ {
                    let j = choose|j: int| 0 <= j < i && k == #[trigger] adapted_dimension_id(j as nat);
                    assert(0 <= j < i + 1 && k == adapted_dimension_id(j as nat));
                } else {
                    let j: int = i as int;
                    assert(0 <= j < i + 1 && k == adapted_dimension_id(j as nat));
                }
            }
            if i > 0 {
                assert(dimension_names.kv().last().0 == program.dimensions.kv()[i - 1].0);
                assert(seq_less(program.dimensions.kv()[i - 1].0, program.dimensions.kv()[i as int].0));
            }
        }
        dimension_names.push_ordered(name.clone(), id);
        i = i + 1;
    }
    let operations = raise_operations(&program.operations);
    let values = raise_values(&program.values);
    let parameters = copy_string_map(&program.parameters);
    let constants = copy_constants(&program.constants);
    let outputs = raise_outputs(&program.outputs);
    let r = Program {
        dimensions,
        dimension_names,
        operations,
        operation_order: copy_strings(&program.operation_order),
        values,
        parameters,
        constants,
        outputs,
        holes: IdMap::new(),
        constraints: copy_constraints(&program.constraints),
        obligations: IdMap::new(),
        numeric_contract: clone_json(&program.numeric_contract),
        frozen: true,
    };
    r
}

// ---------------------------------------------------------------------------
// Source provenance.

/// Whether an implementation node's provenance is consistent with a SpecIR:
/// each named source operation and value exists, a named value is the
/// result of a named operation, and some provenance is given.
pub open spec fn source_link_valid(link: ImplSourceLink, source: Program) -> bool {
    &&& (link.spec_operation matches Some(o) ==> source.operations@.contains_key(o@))
    &&& (link.spec_value matches Some(v) ==> source.values@.contains_key(v@))
    &&& ((link.spec_operation is Some && link.spec_value is Some) ==> (source.values@[link.spec_value->0@].origin matches ValueOrigin::Operation(x)
        && x@ == source.operations@[link.spec_operation->0@].id@))
    &&& !(link.spec_operation is None && link.spec_value is None && link.rewrite_rule is None)
}

/// Checks an implementation node's provenance against its SpecIR.
pub fn verify_source_link(link: &ImplSourceLink, source: &Program) -> (r: AgentResult<()>)
    ensures
        source_link_valid(*link, *source) ==> r is Ok,
        !source_link_valid(*link, *source) ==> (r matches Err(e) && e.code == ErrorCode::ImplVerificationFailed),
{
    let operation = match &link.spec_operation {
        Some(o) => match source.operations.get(o.as_str()) {
            Some(x) => Some(x),
            None => {
                return Err(AgentError::new(ErrorCode::ImplVerificationFailed, "source link names a missing SpecIR operation"));
            },
        },
        None => None,
    };
    let value = match &link.spec_value {
        Some(v) => match source.values.get(v.as_str()) {
            Some(x) => Some(x),
            None => {
                return Err(AgentError::new(ErrorCode::ImplVerificationFailed, "source link names a missing SpecIR value"));
            },
        },
        None => None,
    };
    match (operation, value) {
        (Some(o), Some(v)) => {
            let consistent = match &v.origin {
                ValueOrigin::Operation(x) => str_eq(x.as_str(), o.id.as_str()),
                ValueOrigin::Hole(_) => false,
            };
            if !consistent {
                return Err(AgentError::new(
                    ErrorCode::ImplVerificationFailed,
                    "SpecIR operation/value source link is inconsistent",
                ));
            }
        },
        _ => {},
    }
    if link.spec_operation.is_none() && link.spec_value.is_none() && link.rewrite_rule.is_none() {
        return Err(AgentError::new(ErrorCode::ImplVerificationFailed, "node lacks source or trusted rewrite provenance"));
    }
    Ok(())
}

} // verus!
