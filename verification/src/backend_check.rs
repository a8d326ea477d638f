//! Structural verification of a BackendIR program: kernel coverage of the
//! schedule, kernel shapes, storage and uniform bindings, statement values,
//! the dispatch graph and the guarded dispatch plan.

use crate::backend_ir::{BackendKernel, BackendProgram, BackendStatement, BackendValue};
use crate::diagnostics::{AgentError, AgentResult, ErrorCode};
use crate::idmap::IdMap;
use crate::memory_ir::{is_pow2, is_power_of_two};
use crate::text::str_eq;
use vstd::prelude::*;

verus! {

/// Whether every value a statement reads or writes through is a defined kernel value.
pub open spec fn stmt_defined(st: BackendStatement, dom: Set<Seq<char>>) -> bool
    decreases st,
{
    match st {
        BackendStatement::Store { index, value, .. } => dom.contains(index@) && dom.contains(value@),
        BackendStatement::SerialLoop { index, body, .. } => dom.contains(index@) && forall|i: int|
            0 <= i < body@.len() ==> stmt_defined(#[trigger] body@[i], dom),
        BackendStatement::IfBounds { predicate, body } => dom.contains(predicate@) && forall|i: int|
            0 <= i < body@.len() ==> stmt_defined(#[trigger] body@[i], dom),
    }
}

/// Whether every value the statements use is a defined kernel value.
pub open spec fn stmts_defined(s: Seq<BackendStatement>, dom: Set<Seq<char>>) -> bool {
    forall|i: int| 0 <= i < s.len() ==> stmt_defined(#[trigger] s[i], dom)
}

fn statements_defined(s: &Vec<BackendStatement>, values: &IdMap<BackendValue>) -> (r: bool)
    ensures
        r == stmts_defined(s@, values@.dom()),
    decreases s@,
{
    let mut i: usize = 0;
    while i < s.len()
        invariant
            i <= s@.len(),
            forall|j: int| 0 <= j < i ==> stmt_defined(#[trigger] s@[j], values@.dom()),
        decreases s.len() - i,
    {
        let ok = match &s[i] {
            BackendStatement::Store { index, value, .. } => values.contains_key(index.as_str()) && values.contains_key(
                value.as_str(),
            ),
            BackendStatement::SerialLoop { index, body, .. } => {
                proof {
                    assert(decreases_to!(s@ => s@[i as int]));
                }
                values.contains_key(index.as_str()) && statements_defined(body, values)
            },
            BackendStatement::IfBounds { predicate, body } => {
                values.contains_key(predicate.as_str()) && statements_defined(body, values)
            },
        };
        if !ok {
            return false;
        }
        i = i + 1;
    }
    true
}

/// Whether a kernel's entry point, workgroup, vector width and unroll factor are well formed.
pub open spec fn kernel_shape_ok(k: BackendKernel) -> bool {
    let w = k.workgroup_size@;
    &&& k.entry_point@.len() > 0
    &&& w[0] != 0 && w[1] != 0 && w[2] != 0
    &&& w[0] * w[1] <= u64::MAX
    &&& w[0] * w[1] * w[2] <= u64::MAX
    &&& (k.vector_width == 1 || k.vector_width == 2 || k.vector_width == 4)
    &&& k.unroll_factor != 0
}

/// Whether the storage bindings are in group zero, power-of-two aligned, and numbered distinctly.
pub open spec fn bindings_ok(k: BackendKernel) -> bool {
    let b = k.bindings@;
    forall|j: int|
        0 <= j < b.len() ==> {
            &&& (#[trigger] b[j]).group == 0
            &&& b[j].alignment != 0
            &&& is_pow2(b[j].alignment as nat)
            &&& forall|i: int| 0 <= i < j ==> b[i].binding != b[j].binding
        }
}

/// Whether a non-empty uniform parameter block avoids the storage bindings,
/// lies in group zero and has a size that is a multiple of sixteen.
pub open spec fn parameter_block_ok(k: BackendKernel) -> bool {
    let pb = k.parameter_block;
    pb.entries@.len() == 0 || {
        &&& forall|j: int| 0 <= j < k.bindings@.len() ==> (#[trigger] k.bindings@[j]).binding != pb.binding
        &&& pb.group == 0
        &&& pb.byte_size % 16 == 0
    }
}

/// The first defect of a kernel, if any.
pub open spec fn kernel_failure(k: BackendKernel) -> Option<ErrorCode> {
    if !kernel_shape_ok(k) {
        Some(ErrorCode::BackendDispatchInvalid)
    } else if !bindings_ok(k) {
        Some(ErrorCode::BackendBindingInvalid)
    } else if !parameter_block_ok(k) {
        Some(ErrorCode::BackendBindingInvalid)
    } else if !stmts_defined(k.statements@, k.values@.dom()) {
        Some(ErrorCode::BackendDispatchInvalid)
    } else {
        None
    }
}

/// The first defect among the kernels `kv[i..]` in key order, if any.
pub open spec fn kernels_failure(kv: Seq<(Seq<char>, BackendKernel)>, i: nat) -> Option<ErrorCode>
    decreases kv.len() - i,
{
    if i >= kv.len() {
        None
    } else {
        match kernel_failure(kv[i as int].1) {
            Some(c) => Some(c),
            None => kernels_failure(kv, i + 1),
        }
    }
}

/// The views of a sequence of strings.
pub open spec fn id_views(v: Seq<String>) -> Seq<Seq<char>> {
    v.map_values(|s: String| s@)
}

/// The kernel order lists every kernel exactly once.
pub open spec fn kernel_order_ok(p: BackendProgram) -> bool {
    let o = p.kernel_order@;
    &&& o.len() == p.kernels.spec_len()
    &&& forall|i: int, j: int| 0 <= i < j < o.len() ==> (#[trigger] o[i])@ != (#[trigger] o[j])@
    &&& forall|i: int| 0 <= i < o.len() ==> p.kernels@.contains_key((#[trigger] o[i])@)
}

/// The schedule nodes covered by the first `n` kernels of the kernel order.
pub open spec fn coverage(p: BackendProgram, n: nat) -> Seq<Seq<char>>
    decreases n,
{
    if n == 0 {
        Seq::empty()
    } else {
        coverage(p, (n - 1) as nat) + id_views(p.kernels@[p.kernel_order@[n - 1]@].source_schedule_nodes@)
    }
}

/// The dispatches are the kernels in order, each with its kernel's workgroup size.
pub open spec fn dispatches_ok(p: BackendProgram) -> bool {
    let d = p.dispatches@;
    &&& d.len() == p.kernels.spec_len()
    &&& forall|i: int|
        0 <= i < d.len() ==> {
            &&& (#[trigger] d[i]).order == i
            &&& p.kernels@.contains_key(d[i].kernel@)
            &&& d[i].workgroup_size@ == p.kernels@[d[i].kernel@].workgroup_size@
        }
}

/// Whether some dispatch has order `x`.
pub open spec fn has_dispatch(p: BackendProgram, x: u64) -> bool {
    exists|j: int| 0 <= j < p.dispatches@.len() && (#[trigger] p.dispatches@[j]).order == x
}

/// A guarded plan has two non-empty branches naming existing dispatches.
pub open spec fn guard_ok(p: BackendProgram) -> bool {
    match p.guard {
        None => true,
        Some(g) => {
            &&& g.true_dispatches@.len() > 0
            &&& g.false_dispatches@.len() > 0
            &&& forall|i: int| 0 <= i < g.true_dispatches@.len() ==> has_dispatch(p, #[trigger] g.true_dispatches@[i])
            &&& forall|i: int| 0 <= i < g.false_dispatches@.len() ==> has_dispatch(p, #[trigger] g.false_dispatches@[i])
        },
    }
}

/// The verdict on a backend program that must cover `expected` schedule nodes in order.
pub open spec fn backend_verdict(p: BackendProgram, expected: Seq<Seq<char>>) -> Result<(), ErrorCode> {
    if !kernel_order_ok(p) {
        Err(ErrorCode::BackendCoverageInvalid)
    } else if coverage(p, p.kernel_order@.len()) != expected {
        Err(ErrorCode::BackendCoverageInvalid)
    } else {
        match kernels_failure(p.kernels.kv(), 0) {
            Some(c) => Err(c),
            None => if !dispatches_ok(p) || !guard_ok(p) {
                Err(ErrorCode::BackendDispatchInvalid)
            } else {
                Ok(())
            },
        }
    }
}

#[verifier::loop_isolation(false)]
fn kernel_check(k: &BackendKernel) -> (r: Option<ErrorCode>)
    ensures
        r == kernel_failure(*k),
{
    let w = k.workgroup_size;
    let fits = match (w[0] as u64).checked_mul(w[1] as u64) {
        Some(a) => a.checked_mul(w[2] as u64).is_some(),
        None => false,
    };
    if k.entry_point.as_str().unicode_len() == 0 || w[0] == 0 || w[1] == 0 || w[2] == 0 || !fits || !(k.vector_width
        == 1 || k.vector_width == 2 || k.vector_width == 4) || k.unroll_factor == 0 {
        return Some(ErrorCode::BackendDispatchInvalid);
    }
    let b = &k.bindings;
    let mut j: usize = 0;
    while j < b.len()
        invariant
            j <= b@.len(),
            *b == k.bindings,
            forall|t: int|
                0 <= t < j ==> {
                    &&& (#[trigger] b@[t]).group == 0
                    &&& b@[t].alignment != 0
                    &&& is_pow2(b@[t].alignment as nat)
                    &&& forall|i: int| 0 <= i < t ==> b@[i].binding != b@[t].binding
                },
        decreases b.len() - j,
    {
        if b[j].group != 0 || b[j].alignment == 0 || !is_power_of_two(b[j].alignment) {
            return Some(ErrorCode::BackendBindingInvalid);
        }
        let mut i: usize = 0;
        while i < j
            invariant
                i <= j < b@.len(),
                forall|u: int| 0 <= u < i ==> b@[u].binding != b@[j as int].binding,
            decreases j - i,
        {
            if b[i].binding == b[j].binding {
                proof {
                    assert(!bindings_ok(*k)) by {
                        assert(b@[i as int].binding == b@[j as int].binding);
                    }
                }
                return Some(ErrorCode::BackendBindingInvalid);
            }
            i = i + 1;
        }
        j = j + 1;
    }
    let pb = &k.parameter_block;
    if pb.entries.len() != 0 {
        let mut t: usize = 0;
        while t < b.len()
            invariant
                t <= b@.len(),
                forall|u: int| 0 <= u < t ==> (#[trigger] b@[u]).binding != pb.binding,
            decreases b.len() - t,
        {
            if b[t].binding == pb.binding {
                return Some(ErrorCode::BackendBindingInvalid);
            }
            t = t + 1;
        }
        if pb.group != 0 || pb.byte_size % 16 != 0 {
            return Some(ErrorCode::BackendBindingInvalid);
        }
    }
    if !statements_defined(&k.statements, &k.values) {
        return Some(ErrorCode::BackendDispatchInvalid);
    }
    None
}

fn kernels_check(kernels: &IdMap<BackendKernel>) -> (r: Option<ErrorCode>)
    ensures
        r == kernels_failure(kernels.kv(), 0),
{
    let n = kernels.len();
    let mut i: usize = 0;
    while i < n
        invariant
            n == kernels.kv().len(),
            i <= n,
            kernels_failure(kernels.kv(), i as nat) == kernels_failure(kernels.kv(), 0),
        decreases n - i,
    {
        let (_, k) = kernels.entry_at(i);
        match kernel_check(k) {
            Some(c) => {
                return Some(c);
            },
            None => {},
        }
        i = i + 1;
    }
    None
}

#[verifier::loop_isolation(false)]
fn kernel_order_check(p: &BackendProgram) -> (r: bool)
    ensures
        r == kernel_order_ok(*p),
{
    let o = &p.kernel_order;
    if o.len() != p.kernels.len() {
        return false;
    }
    let mut j: usize = 0;
    while j < o.len()
        invariant
            j <= o@.len(),
            *o == p.kernel_order,
            o@.len() == p.kernels.spec_len(),
            forall|a: int, b: int| 0 <= a < b < j ==> (#[trigger] o@[a])@ != (#[trigger] o@[b])@,
            forall|a: int| 0 <= a < j ==> p.kernels@.contains_key((#[trigger] o@[a])@),
        decreases o.len() - j,
    {
        if !p.kernels.contains_key(o[j].as_str()) {
            return false;
        }
        let mut i: usize = 0;
        while i < j
            invariant
                i <= j < o@.len(),
                forall|u: int| 0 <= u < i ==> o@[u]@ != o@[j as int]@,
            decreases j - i,
        {
            if str_eq(o[i].as_str(), o[j].as_str()) {
                proof {
                    assert(o@[i as int]@ == o@[j as int]@);
                }
                return false;
            }
            i = i + 1;
        }
        j = j + 1;
    }
    true
}

#[verifier::loop_isolation(false)]
fn coverage_matches(p: &BackendProgram, expected: &[String]) -> (r: bool)
    requires
        kernel_order_ok(*p),
    ensures
        r == (coverage(*p, p.kernel_order@.len()) == id_views(expected@)),
{
    let mut cov: Vec<String> = Vec::new();
    let mut j: usize = 0;
    proof {
        assert(id_views(cov@) =~= coverage(*p, 0));
    }
    while j < p.kernel_order.len()
        invariant
            kernel_order_ok(*p),
            j <= p.kernel_order@.len(),
            id_views(cov@) == coverage(*p, j as nat),
        decreases p.kernel_order.len() - j,
    {
        let kernel = match p.kernels.get(p.kernel_order[j].as_str()) {
            Some(k) => k,
            None => {
                proof {
                    assert(p.kernels@.contains_key(p.kernel_order@[j as int]@));
                }
                return false;
            },
        };
        let nodes = &kernel.source_schedule_nodes;
        let ghost before = id_views(cov@);
        let mut t: usize = 0;
        while t < nodes.len()
            invariant
                t <= nodes@.len(),
                id_views(cov@) == before + id_views(nodes@.take(t as int)),
            decreases nodes.len() - t,
        {
            let ghost prev = cov@;
            cov.push(nodes[t].clone());
            proof {
                assert(id_views(cov@) =~= id_views(prev).push(nodes@[t as int]@));
                assert(id_views(nodes@.take(t + 1)) =~= id_views(nodes@.take(t as int)).push(nodes@[t as int]@));
            }
            t = t + 1;
        }
        proof {
            assert(nodes@.take(nodes@.len() as int) =~= nodes@);
        }
        j = j + 1;
    }
    if cov.len() != expected.len() {
        proof {
            assert(id_views(cov@).len() != id_views(expected@).len());
        }
        return false;
    }
    let mut i: usize = 0;
    while i < cov.len()
        invariant
            cov@.len() == expected@.len(),
            i <= cov@.len(),
            forall|u: int| 0 <= u < i ==> cov@[u]@ == expected@[u]@,
        decreases cov.len() - i,
    {
        if !str_eq(cov[i].as_str(), expected[i].as_str()) {
            proof {
                assert(id_views(cov@)[i as int] != id_views(expected@)[i as int]);
            }
            return false;
        }
        i = i + 1;
    }
    proof {
        assert(id_views(cov@) =~= id_views(expected@));
    }
    true
}

fn dispatches_check(p: &BackendProgram) -> (r: bool)
    ensures
        r == dispatches_ok(*p),
{
    let d = &p.dispatches;
    if d.len() != p.kernels.len() {
        return false;
    }
    let mut i: usize = 0;
    while i < d.len()
        invariant
            *d == p.dispatches,
            d@.len() == p.kernels.spec_len(),
            i <= d@.len(),
            forall|t: int|
                0 <= t < i ==> {
                    &&& (#[trigger] d@[t]).order == t
                    &&& p.kernels@.contains_key(d@[t].kernel@)
                    &&& d@[t].workgroup_size@ == p.kernels@[d@[t].kernel@].workgroup_size@
                },
        decreases d.len() - i,
    {
        if d[i].order != i as u64 {
            return false;
        }
        match p.kernels.get(d[i].kernel.as_str()) {
            Some(k) => {
                let a = k.workgroup_size;
                let b = d[i].workgroup_size;
                if a[0] != b[0] || a[1] != b[1] || a[2] != b[2] {
                    return false;
                }
                proof {
                    assert(a@ =~= b@);
                }
            },
            None => {
                return false;
            },
        }
        i = i + 1;
    }
    true
}

fn find_dispatch(p: &BackendProgram, x: u64) -> (r: bool)
    ensures
        r == has_dispatch(*p, x),
{
    let mut j: usize = 0;
    while j < p.dispatches.len()
        invariant
            j <= p.dispatches@.len(),
            forall|u: int| 0 <= u < j ==> (#[trigger] p.dispatches@[u]).order != x,
        decreases p.dispatches.len() - j,
    {
        if p.dispatches[j].order == x {
            return true;
        }
        j = j + 1;
    }
    false
}

fn orders_exist(p: &BackendProgram, orders: &Vec<u64>) -> (r: bool)
    ensures
        r == (forall|i: int| 0 <= i < orders@.len() ==> has_dispatch(*p, #[trigger] orders@[i])),
{
    let mut i: usize = 0;
    while i < orders.len()
        invariant
            i <= orders@.len(),
            forall|u: int| 0 <= u < i ==> has_dispatch(*p, #[trigger] orders@[u]),
        decreases orders.len() - i,
    {
        if !find_dispatch(p, orders[i]) {
            return false;
        }
        i = i + 1;
    }
    true
}

fn guard_check(p: &BackendProgram) -> (r: bool)
    ensures
        r == guard_ok(*p),
{
    match &p.guard {
        None => true,
        Some(g) => g.true_dispatches.len() > 0 && g.false_dispatches.len() > 0 && orders_exist(p, &g.true_dispatches)
            && orders_exist(p, &g.false_dispatches),
    }
}

fn backend_error(code: ErrorCode, message: &str) -> (r: AgentError)
    ensures
        r.code == code,
{
    AgentError::new(code, message)
}

/// Verifies the structure of a backend program against the schedule nodes it
/// must cover: the kernel order names every kernel once and the kernels
/// cover `expected_schedule_nodes` in exact order; each kernel (in key
/// order) has a valid shape, storage bindings, uniform block and statement
/// values; the dispatches follow the kernels; a guarded plan names existing
/// dispatches on both branches.
pub fn verify_backend_program(program: &BackendProgram, expected_schedule_nodes: &[String]) -> (r: AgentResult<()>)
    ensures
        match backend_verdict(*program, id_views(expected_schedule_nodes@)) {
            Ok(()) => r is Ok,
            Err(c) => r matches Err(e) && e.code == c,
        },
{
    if !kernel_order_check(program) {
        return Err(backend_error(
            ErrorCode::BackendCoverageInvalid,
            "kernel order is incomplete, duplicated, or references a missing kernel",
        ));
    }
    if !coverage_matches(program, expected_schedule_nodes) {
        return Err(backend_error(
            ErrorCode::BackendCoverageInvalid,
            "backend kernels do not cover ScheduleIR nodes in exact order",
        ));
    }
    match kernels_check(&program.kernels) {
        Some(ErrorCode::BackendBindingInvalid) => {
            return Err(backend_error(
                ErrorCode::BackendBindingInvalid,
                "kernel storage binding layout or uniform parameter block is invalid",
            ));
        },
        Some(c) => {
            return Err(backend_error(c, "kernel shape or statement values are invalid"));
        },
        None => {},
    }
    if !dispatches_check(program) || !guard_check(program) {
        return Err(backend_error(
            ErrorCode::BackendDispatchInvalid,
            "dispatch graph is not a complete deterministic kernel order",
        ));
    }
    Ok(())
}

} // verus!
