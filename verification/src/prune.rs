//! The exact rewrite that prunes implementation operations unreachable from
//! the parameters and outputs, with the values they define.

use crate::dependency::{
    certifies, def_op, dependencies_well_founded, enters, rank_decreasing, read_closed, reachable_operations, root_value,
};
use crate::diagnostics::{AgentError, AgentResult, ErrorCode};
use crate::fresh::least_closed;
use crate::idmap::{kv_has, kv_map, lemma_kv_at, sorted_kv, IdMap};
use crate::impl_ir::{op_reads, origin_op, ImplProgram};
use crate::text::seq_less;
use vstd::prelude::*;

verus! {

/// The operations that pruning removes: those outside `c`.
pub open spec fn removed_ops(p: ImplProgram, c: Set<Seq<char>>) -> Set<Seq<char>> {
    Set::new(|o: Seq<char>| p.operations@.contains_key(o) && !c.contains(o))
}

/// The values that pruning removes: those defined by a removed operation.
pub open spec fn removed_values(p: ImplProgram, c: Set<Seq<char>>) -> Set<Seq<char>> {
    Set::new(|v: Seq<char>| p.values@.contains_key(v) && removed_ops(p, c).contains(origin_op(p.values@[v])))
}

/// The entries of `kv` whose key is not in `drop`.
pub open spec fn kept<V>(kv: Seq<(Seq<char>, V)>, drop: Set<Seq<char>>) -> Seq<(Seq<char>, V)> {
    kv.filter(|e: (Seq<char>, V)| !drop.contains(e.0))
}

proof fn lemma_filter_sorted<V>(kv: Seq<(Seq<char>, V)>, drop: Set<Seq<char>>)
    requires
        sorted_kv(kv),
    ensures
        sorted_kv(kept(kv, drop)),
        forall|i: int| 0 <= i < kept(kv, drop).len() ==> exists|j: int| 0 <= j < kv.len() && #[trigger] kept(kv, drop)[i] == kv[j],
    decreases kv.len(),
{
    reveal_with_fuel(Seq::filter, 1);
    if kv.len() > 0 {
        let pre = kv.drop_last();
        assert(sorted_kv(pre));
        lemma_filter_sorted(pre, drop);
        let f = kept(kv, drop);
        let g = kept(pre, drop);
        assert(f == (if !drop.contains(kv.last().0) { g.push(kv.last()) } else { g }));
        assert forall|i: int| 0 <= i < f.len() implies exists|j: int| 0 <= j < kv.len() && #[trigger] f[i] == kv[j] by {
            if i < g.len() {
                let j = choose|j: int| 0 <= j < pre.len() && #[trigger] g[i] == pre[j];
                assert(f[i] == kv[j]);
            } else {
                assert(f[i] == kv[kv.len() - 1]);
            }
        }
        if !drop.contains(kv.last().0) {
            assert forall|i: int, j: int| 0 <= i < j < f.len() implies seq_less(#[trigger] f[i].0, #[trigger] f[j].0) by {
                if j == g.len() {
                    let a = choose|a: int| 0 <= a < pre.len() && #[trigger] g[i] == pre[a];
                    assert(kv[a] == pre[a]);
                    assert(seq_less(kv[a].0, kv[kv.len() - 1].0));
                } else {
                    assert(f[i] == g[i] && f[j] == g[j]);
                }
            }
        }
    }
}

/// Whether `new` is `old` without the operations outside the least closed
/// set, the values they define and those values' constants.
pub open spec fn pruned(old: ImplProgram, new: ImplProgram) -> bool {
    let c = least_closed(old);
    &&& new.operations.kv() == kept(old.operations.kv(), removed_ops(old, c))
    &&& new.operation_order@ == old.operation_order@.filter(|o: String| !removed_ops(old, c).contains(o@))
    &&& new.values.kv() == kept(old.values.kv(), removed_values(old, c))
    &&& new.constants.kv() == kept(old.constants.kv(), removed_values(old, c))
    &&& new.dimensions == old.dimensions
    &&& new.parameters == old.parameters
    &&& new.outputs == old.outputs
    &&& new.constraints == old.constraints
    &&& new.numeric_contract == old.numeric_contract
}

proof fn lemma_kept_map<V>(kv: Seq<(Seq<char>, V)>, drop: Set<Seq<char>>, k: Seq<char>)
    requires
        sorted_kv(kv),
    ensures
        kv_map(kept(kv, drop)).contains_key(k) == (kv_map(kv).contains_key(k) && !drop.contains(k)),
        kv_map(kept(kv, drop)).contains_key(k) ==> kv_map(kept(kv, drop))[k] == kv_map(kv)[k],
{
    let f = kept(kv, drop);
    lemma_filter_sorted(kv, drop);
    kv.filter_lemma(|e: (Seq<char>, V)| !drop.contains(e.0));
    if kv_has(kv, k) && !drop.contains(k) {
        let j = choose|j: int| 0 <= j < kv.len() && #[trigger] kv[j].0 == k;
        assert(f.contains(kv[j]));
        let i = choose|i: int| 0 <= i < f.len() && f[i] == kv[j];
        assert(f[i].0 == k);
        assert(kv_has(f, k));
    }
    if kv_has(f, k) {
        let i = choose|i: int| 0 <= i < f.len() && #[trigger] f[i].0 == k;
        let j = choose|j: int| 0 <= j < kv.len() && #[trigger] f[i] == kv[j];
        assert(kv[j].0 == k);
        assert(kv_has(kv, k));
        lemma_kv_at(f, i);
        lemma_kv_at(kv, j);
    }
}

/// The intersection of every closed set is itself closed, and least.
pub(crate) proof fn lemma_least_closed(p: ImplProgram)
    requires
        dependencies_well_founded(p),
    ensures
        read_closed(p, least_closed(p)),
        forall|d: Set<Seq<char>>| #[trigger] read_closed(p, d) ==> least_closed(p).subset_of(d),
{
    let cert = choose|cert: (Set<Seq<char>>, spec_fn(Seq<char>) -> nat)| #[trigger] certifies(p, cert);
    let i = Set::new(|o: Seq<char>| forall|d: Set<Seq<char>>| #[trigger] read_closed(p, d) ==> d.contains(o));
    assert(read_closed(p, cert.0));
    assert forall|v: Seq<char>| #[trigger] root_value(p, v) implies enters(p, i, v) by {
        assert(enters(p, cert.0, v));
        assert forall|d: Set<Seq<char>>| #[trigger] read_closed(p, d) implies d.contains(def_op(p, v)) by {
            assert(enters(p, d, v));
        }
    }
    assert forall|o: Seq<char>| #[trigger] i.contains(o) implies p.operations@.contains_key(o) by {
        assert(cert.0.contains(o));
    }
    assert forall|o: Seq<char>, v: Seq<char>| i.contains(o) && #[trigger] op_reads(p.operations@[o], v) implies enters(p, i, v) by {
        assert(cert.0.contains(o));
        assert(enters(p, cert.0, v));
        assert forall|d: Set<Seq<char>>| #[trigger] read_closed(p, d) implies d.contains(def_op(p, v)) by {
            assert(d.contains(o));
            assert(enters(p, d, v));
        }
    }
    assert(read_closed(p, i));
    assert(read_closed(p, i) && forall|d: Set<Seq<char>>| #[trigger] read_closed(p, d) ==> i.subset_of(d));
}

/// Pruning is exact: the pruned program is still well founded, has the same
/// least closed set of operations, and keeps those operations and the values
/// they define unchanged.
pub proof fn law_pruning_keeps_the_reachable_program(old: ImplProgram, new: ImplProgram)
    requires
        dependencies_well_founded(old),
        pruned(old, new),
        sorted_kv(old.operations.kv()),
        sorted_kv(old.values.kv()),
    ensures
        dependencies_well_founded(new),
        least_closed(new) == least_closed(old),
        forall|o: Seq<char>|
            #[trigger] least_closed(old).contains(o) ==> new.operations@.contains_key(o) && new.operations@[o] == old.operations@[o],
        forall|v: Seq<char>|
            old.values@.contains_key(v) && #[trigger] least_closed(old).contains(origin_op(old.values@[v])) ==> new.values@.contains_key(v)
                && new.values@[v] == old.values@[v],
{
    let c = least_closed(old);
    lemma_least_closed(old);
    let ro = removed_ops(old, c);
    let rv = removed_values(old, c);
    assert forall|o: Seq<char>| #[trigger] new.operations@.contains_key(o) implies old.operations@.contains_key(o) && !ro.contains(o)
        && new.operations@[o] == old.operations@[o] by {
        lemma_kept_map(old.operations.kv(), ro, o);
    }
    assert forall|o: Seq<char>| #[trigger] c.contains(o) implies new.operations@.contains_key(o) && new.operations@[o] == old.operations@[o] by {
        lemma_kept_map(old.operations.kv(), ro, o);
    }
    assert forall|v: Seq<char>| #[trigger] new.values@.contains_key(v) implies old.values@.contains_key(v) && new.values@[v] == old.values@[v] by {
        lemma_kept_map(old.values.kv(), rv, v);
    }
    assert forall|v: Seq<char>| old.values@.contains_key(v) && #[trigger] c.contains(origin_op(old.values@[v])) implies new.values@.contains_key(v)
        && new.values@[v] == old.values@[v] by {
        lemma_kept_map(old.values.kv(), rv, v);
    }
    // `c` is closed in the pruned program.
    assert forall|v: Seq<char>| #[trigger] root_value(new, v) implies enters(new, c, v) by {
        assert(root_value(old, v));
        assert(enters(old, c, v));
    }
    assert forall|o: Seq<char>, v: Seq<char>| c.contains(o) && #[trigger] op_reads(new.operations@[o], v) implies enters(new, c, v) by {
        assert(op_reads(old.operations@[o], v));
        assert(enters(old, c, v));
    }
    assert(read_closed(new, c));
    // Every closed set of the pruned program is closed in the original.
    assert forall|d: Set<Seq<char>>| #[trigger] read_closed(new, d) implies c.subset_of(d) by {
        assert forall|v: Seq<char>| #[trigger] root_value(old, v) implies enters(old, d, v) by {
            assert(root_value(new, v));
            assert(enters(new, d, v));
        }
        assert forall|o: Seq<char>, v: Seq<char>| d.contains(o) && #[trigger] op_reads(old.operations@[o], v) implies enters(old, d, v) by {
            assert(new.operations@.contains_key(o));
            assert(op_reads(new.operations@[o], v));
            assert(enters(new, d, v));
        }
        assert(read_closed(old, d));
    }
    let cert = choose|cert: (Set<Seq<char>>, spec_fn(Seq<char>) -> nat)| #[trigger] certifies(old, cert);
    assert(c.subset_of(cert.0));
    assert(rank_decreasing(new, c, cert.1)) by {
        assert forall|o: Seq<char>, v: Seq<char>| c.contains(o) && #[trigger] op_reads(new.operations@[o], v) implies cert.1(def_op(new, v)) < cert.1(o) by {
            assert(op_reads(old.operations@[o], v));
            assert(enters(old, c, v));
            assert(cert.0.contains(o));
        }
    }
    assert(certifies(new, (c, cert.1)));
    assert(dependencies_well_founded(new));
    let c2 = least_closed(new);
    assert(read_closed(new, c) && forall|d: Set<Seq<char>>| #[trigger] read_closed(new, d) ==> c.subset_of(d));
    assert(read_closed(new, c2) && forall|d: Set<Seq<char>>| #[trigger] read_closed(new, d) ==> c2.subset_of(d));
    assert(c2.subset_of(c));
    assert(c.subset_of(c2));
    assert(c2 =~= c);
}

/// Removes the entries whose key is in `drop`.
fn drop_keys<V>(m: IdMap<V>, drop: &IdMap<()>) -> (r: IdMap<V>)
    ensures
        r.kv() == kept(m.kv(), drop@.dom()),
{
    let ghost kv = m.kv();
    let ghost d = drop@.dom();
    let mut entries = m.into_entries();
    let ghost all = entries@;
    let mut out: IdMap<V> = IdMap::new();
    let mut i: usize = 0;
    let n = entries.len();
    proof {
        reveal_with_fuel(Seq::filter, 1);
        assert(kv.take(0) =~= Seq::<(Seq<char>, V)>::empty());
        lemma_filter_sorted(kv, d);
    }
    while entries.len() > 0
        invariant
            sorted_kv(kv),
            all.map_values(|e: (String, V)| (e.0@, e.1)) == kv,
            n == all.len(),
            i <= n,
            entries@ == all.skip(i as int),
            out.kv() == kept(kv.take(i as int), d),
            d == drop@.dom(),
        decreases entries@.len(),
    {
        let (k, v) = entries.remove(0);
        proof {
            assert(all[i as int] == (k, v));
            assert(kv[i as int] == (k@, v));
            assert(kv.take(i + 1).drop_last() =~= kv.take(i as int));
            assert(kv.take(i + 1).last() == (k@, v));
            reveal_with_fuel(Seq::filter, 1);
            assert(entries@ =~= all.skip(i + 1));
        }
        if !drop.contains_key(k.as_str()) {
            proof {
                if out.kv().len() > 0 {
                    lemma_filter_sorted(kv.take(i as int), d);
                    let last = out.kv().last();
                    let j = choose|j: int| 0 <= j < kv.take(i as int).len() && #[trigger] kept(kv.take(i as int), d)[out.kv().len() - 1] == kv.take(i as int)[j];
                    assert(kv[j] == last);
                    assert(seq_less(kv[j].0, kv[i as int].0));
                }
            }
            out.push_ordered(k, v);
        }
        i = i + 1;
    }
    proof {
        assert(kv.take(n as int) =~= kv);
    }
    out
}

/// Whether one of the first `i` entries has key `o`.
pub open spec fn prefix_has<V>(kv: Seq<(Seq<char>, V)>, i: int, o: Seq<char>) -> bool {
    exists|j: int| 0 <= j < i && (#[trigger] kv[j]).0 == o
}

/// The keys of the operations outside `reached`.
fn unreached_ops(p: &ImplProgram, reached: &IdMap<u64>) -> (r: IdMap<()>)
    ensures
        r@.dom() == removed_ops(*p, reached@.dom()),
{
    let ops = &p.operations;
    let ghost kv = ops.kv();
    let n = ops.len();
    let mut out: IdMap<()> = IdMap::new();
    let mut i: usize = 0;
    while i < n
        invariant
            kv == ops.kv(),
            *ops == p.operations,
            n == kv.len(),
            i <= n,
            sorted_kv(kv),
            out@.dom() == Set::new(|o: Seq<char>| prefix_has(kv, i as int, o) && !reached@.dom().contains(o)),
        decreases n - i,
    {
        let (k, _) = ops.entry_at(i);
        let ghost before = out@.dom();
        if !reached.contains_key(k.as_str()) {
            out.insert(k.clone(), ());
        }
        proof {
            assert(out@.dom() =~= Set::new(|o: Seq<char>| prefix_has(kv, i + 1, o) && !reached@.dom().contains(o))) by {
                assert forall|o: Seq<char>| #[trigger] prefix_has(kv, i + 1, o) implies prefix_has(kv, i as int, o) || o == k@ by {
                    let j = choose|j: int| 0 <= j < i + 1 && (#[trigger] kv[j]).0 == o;
                    if j < i {
                        assert(kv[j].0 == o);
                    }
                }
                assert(kv[i as int].0 == k@);
            }
        }
        i = i + 1;
    }
    proof {
        assert(out@.dom() =~= removed_ops(*p, reached@.dom())) by {
            assert forall|o: Seq<char>| p.operations@.contains_key(o) implies prefix_has(kv, n as int, o) by {
                assert(crate::idmap::kv_has(kv, o));
            }
            assert forall|o: Seq<char>| #[trigger] prefix_has(kv, n as int, o) implies p.operations@.contains_key(o) by {
                let j = choose|j: int| 0 <= j < n && (#[trigger] kv[j]).0 == o;
                crate::idmap::lemma_kv_at(kv, j);
            }
        }
    }
    out
}

/// The keys of the values defined by an operation in `removed`.
fn defined_by(p: &ImplProgram, removed: &IdMap<()>) -> (r: IdMap<()>)
    ensures
        r@.dom() == Set::new(|v: Seq<char>| p.values@.contains_key(v) && removed@.dom().contains(origin_op(p.values@[v]))),
{
    let values = &p.values;
    let ghost kv = values.kv();
    let n = values.len();
    let mut out: IdMap<()> = IdMap::new();
    let mut i: usize = 0;
    while i < n
        invariant
            kv == values.kv(),
            *values == p.values,
            n == kv.len(),
            i <= n,
            sorted_kv(kv),
            out@.dom() == Set::new(|v: Seq<char>| prefix_has(kv, i as int, v) && p.values@.contains_key(v) && removed@.dom().contains(origin_op(p.values@[v]))),
        decreases n - i,
    {
        let (k, def) = values.entry_at(i);
        proof {
            crate::idmap::lemma_kv_at(kv, i as int);
        }
        let op = match &def.origin {
            crate::impl_ir::ImplValueOrigin::Operation(o) => o,
        };
        proof {
            assert(p.values@.contains_key(k@) && p.values@[k@] == *def);
            assert(origin_op(*def) == op@);
        }
        if removed.contains_key(op.as_str()) {
            out.insert(k.clone(), ());
        }
        proof {
            assert(out@.dom() =~= Set::new(|v: Seq<char>| prefix_has(kv, i + 1, v) && p.values@.contains_key(v) && removed@.dom().contains(origin_op(p.values@[v])))) by {
                assert forall|v: Seq<char>| #[trigger] prefix_has(kv, i + 1, v) implies prefix_has(kv, i as int, v) || v == k@ by {
                    let j = choose|j: int| 0 <= j < i + 1 && (#[trigger] kv[j]).0 == v;
                    if j < i {
                        assert(kv[j].0 == v);
                    }
                }
                assert(kv[i as int].0 == k@);
            }
        }
        i = i + 1;
    }
    proof {
        assert forall|v: Seq<char>| p.values@.contains_key(v) implies prefix_has(kv, n as int, v) by {
            assert(crate::idmap::kv_has(kv, v));
        }
        assert(out@.dom() =~= Set::new(|v: Seq<char>| p.values@.contains_key(v) && removed@.dom().contains(origin_op(p.values@[v]))));
    }
    out
}

/// The order entries outside `drop`, in order.
fn order_without(order: Vec<String>, drop: &IdMap<()>) -> (r: Vec<String>)
    ensures
        r@ == order@.filter(|o: String| !drop@.dom().contains(o@)),
{
    let ghost all = order@;
    let mut out: Vec<String> = Vec::new();
    let mut i: usize = 0;
    proof {
        reveal_with_fuel(Seq::filter, 1);
        assert(all.take(0) =~= Seq::<String>::empty());
    }
    while i < order.len()
        invariant
            all == order@,
            i <= all.len(),
            out@ == all.take(i as int).filter(|o: String| !drop@.dom().contains(o@)),
        decreases all.len() - i,
    {
        proof {
            assert(all.take(i + 1).drop_last() =~= all.take(i as int));
            reveal_with_fuel(Seq::filter, 1);
        }
        if !drop.contains_key(order[i].as_str()) {
            out.push(order[i].clone());
        }
        i = i + 1;
    }
    proof {
        assert(all.take(all.len() as int) =~= all);
    }
    out
}

/// Prunes the implementation operations unreachable from the parameters and
/// outputs, with the values they define and the constants of those values.
/// The named target must be one of them.
pub fn prune_unreachable(program: &mut ImplProgram, target: &str) -> (r: AgentResult<Vec<String>>)
    ensures
        !dependencies_well_founded(*old(program)) ==> (r matches Err(e) && e.code == ErrorCode::ImplVerificationFailed)
            && *final(program) == *old(program),
        dependencies_well_founded(*old(program)) ==> {
            let c = least_closed(*old(program));
            if c.contains(target@) || !old(program).operations@.contains_key(target@) {
                (r matches Err(e) && e.code == ErrorCode::RewriteNotApplicable) && *final(program) == *old(program)
            } else {
                &&& r matches Ok(v) && v@.map_values(|s: String| s@) == seq!["target and removed nodes are output-unreachable"@]
                &&& pruned(*old(program), *final(program))
            }
        },
{
    let ghost p = *program;
    let reached = reachable_operations(program)?;
    let ghost dom = reached@.dom();
    proof {
        let cert = (dom, |o: Seq<char>| reached@[o] as nat);
        assert(crate::dependency::certifies(p, cert));
        assert(dependencies_well_founded(p));
        let c = least_closed(p);
        assert(crate::dependency::read_closed(p, c) && forall|d: Set<Seq<char>>| #[trigger] crate::dependency::read_closed(p, d) ==> c.subset_of(d));
        assert(c.subset_of(dom));
        assert(dom.subset_of(c));
        assert(c =~= dom);
    }
    if reached.contains_key(target) || !program.operations.contains_key(target) {
        return Err(AgentError::new(ErrorCode::RewriteNotApplicable, "target is not an unreachable implementation operation"));
    }
    let removed = unreached_ops(program, &reached);
    let removed_vals = defined_by(program, &removed);
    proof {
        assert(removed_vals@.dom() =~= removed_values(p, dom));
    }
    let mut ops: IdMap<crate::impl_ir::ImplOperation> = IdMap::new();
    std::mem::swap(&mut ops, &mut program.operations);
    program.operations = drop_keys(ops, &removed);
    let mut order: Vec<String> = Vec::new();
    std::mem::swap(&mut order, &mut program.operation_order);
    program.operation_order = order_without(order, &removed);
    let mut values: IdMap<crate::impl_ir::ImplValue> = IdMap::new();
    std::mem::swap(&mut values, &mut program.values);
    program.values = drop_keys(values, &removed_vals);
    let mut constants: IdMap<crate::ir::ConstantValue> = IdMap::new();
    std::mem::swap(&mut constants, &mut program.constants);
    program.constants = drop_keys(constants, &removed_vals);
    let mut v: Vec<String> = Vec::new();
    v.push(String::from_str("target and removed nodes are output-unreachable"));
    proof {
        assert(v@.map_values(|s: String| s@) =~= seq!["target and removed nodes are output-unreachable"@]);
    }
    Ok(v)
}

} // verus!
