//! The ImplIR operations that the program's parameters and outputs depend on.
//!
//! A search from the parameter and output values follows each value to its
//! defining operation and each operation to the values it reads. It succeeds
//! exactly when that dependency graph is complete and acyclic, and then yields
//! the least set of operations closed under the search, each with its position
//! in a dependency-first order.

use crate::diagnostics::{AgentError, AgentResult, ErrorCode};
use crate::idmap::{kv_has, kv_keys, IdMap};
use crate::impl_ir::{contains_id, ids_contain, is_output_value, op_reads, origin_op, ImplProgram, ImplValueOrigin};
use vstd::prelude::*;

verus! {

/// The operation that defines value `v`.
pub open spec fn def_op(p: ImplProgram, v: Seq<char>) -> Seq<char> {
    origin_op(p.values@[v])
}

/// Whether `v` is bound to some external parameter.
pub open spec fn is_parameter_value(p: ImplProgram, v: Seq<char>) -> bool {
    exists|i: int| 0 <= i < p.parameters.kv().len() && (#[trigger] p.parameters.kv()[i]).1@ == v
}

/// Whether the search starts from `v`: a parameter or an output value.
pub open spec fn root_value(p: ImplProgram, v: Seq<char>) -> bool {
    is_parameter_value(p, v) || is_output_value(p, v)
}

/// Value `v` exists and its defining operation lies in `c`.
pub open spec fn enters(p: ImplProgram, c: Set<Seq<char>>, v: Seq<char>) -> bool {
    p.values@.contains_key(v) && c.contains(def_op(p, v))
}

/// `c` holds existing operations, contains the defining operations of every
/// root value, and contains the defining operation of every value read by one
/// of its operations, each such value existing.
pub open spec fn read_closed(p: ImplProgram, c: Set<Seq<char>>) -> bool {
    &&& forall|v: Seq<char>| #[trigger] root_value(p, v) ==> enters(p, c, v)
    &&& forall|o: Seq<char>| #[trigger] c.contains(o) ==> p.operations@.contains_key(o)
    &&& forall|o: Seq<char>, v: Seq<char>|
        c.contains(o) && #[trigger] op_reads(p.operations@[o], v) ==> enters(p, c, v)
}

/// Within `c`, every operation ranks above the operations it reads from.
pub open spec fn rank_decreasing(p: ImplProgram, c: Set<Seq<char>>, rank: spec_fn(Seq<char>) -> nat) -> bool {
    forall|o: Seq<char>, v: Seq<char>|
        c.contains(o) && #[trigger] op_reads(p.operations@[o], v) ==> rank(def_op(p, v)) < rank(o)
}

/// A closed set of operations together with a rank that decreases along reads.
pub open spec fn certifies(p: ImplProgram, cert: (Set<Seq<char>>, spec_fn(Seq<char>) -> nat)) -> bool {
    read_closed(p, cert.0) && rank_decreasing(p, cert.0, cert.1)
}

/// The dependencies of the roots are complete and acyclic.
pub open spec fn dependencies_well_founded(p: ImplProgram) -> bool {
    exists|cert: (Set<Seq<char>>, spec_fn(Seq<char>) -> nat)| #[trigger] certifies(p, cert)
}

/// The state of the search: the operations under visit (`stack`) and the
/// finished ones with their finishing positions (`reached`).
pub open spec fn search_state(p: ImplProgram, stack: Seq<String>, reached: IdMap<u64>) -> bool {
    &&& forall|i: int| 0 <= i < stack.len() ==> p.operations@.contains_key((#[trigger] stack[i])@)
    &&& forall|i: int| 0 <= i < stack.len() ==> !reached@.contains_key((#[trigger] stack[i])@)
    &&& forall|i: int, j: int| 0 <= i < j < stack.len() ==> (#[trigger] stack[i])@ != (#[trigger] stack[j])@
    &&& forall|o: Seq<char>| #[trigger] reached@.contains_key(o) ==> {
        &&& p.operations@.contains_key(o)
        &&& reached@[o] < reached.spec_len()
    }
    &&& forall|o: Seq<char>, v: Seq<char>|
        reached@.contains_key(o) && #[trigger] op_reads(p.operations@[o], v) ==> {
            &&& p.values@.contains_key(v)
            &&& reached@.contains_key(def_op(p, v))
            &&& reached@[def_op(p, v)] < reached@[o]
        }
    &&& forall|c: Set<Seq<char>>| #[trigger] read_closed(p, c) ==> {
        &&& forall|o: Seq<char>| reached@.contains_key(o) ==> #[trigger] c.contains(o)
        &&& forall|i: int| 0 <= i < stack.len() ==> #[trigger] c.contains(stack[i]@)
    }
}

/// Under a certificate, the stack lies in its set with strictly decreasing rank.
pub open spec fn stack_ranked(stack: Seq<String>, cert: (Set<Seq<char>>, spec_fn(Seq<char>) -> nat)) -> bool {
    &&& forall|i: int| 0 <= i < stack.len() ==> cert.0.contains((#[trigger] stack[i])@)
    &&& forall|i: int, j: int| 0 <= i < j < stack.len() ==> (cert.1)((#[trigger] stack[j])@) < (cert.1)((#[trigger] stack[i])@)
}

/// A sequence of distinct keys of an entry sequence is no longer than it.
proof fn lemma_distinct_keys_bounded<V>(s: Seq<String>, kv: Seq<(Seq<char>, V)>)
    requires
        forall|i: int, j: int| 0 <= i < j < s.len() ==> (#[trigger] s[i])@ != (#[trigger] s[j])@,
        forall|i: int| 0 <= i < s.len() ==> kv_has(kv, (#[trigger] s[i])@),
    ensures
        s.len() <= kv.len(),
{
    let sv = s.map_values(|x: String| x@);
    let keys = kv_keys(kv);
    assert(sv.no_duplicates()) by {
        assert forall|i: int, j: int| 0 <= i < sv.len() && 0 <= j < sv.len() && i != j implies sv[i] != sv[j] by {
            if i < j {
                assert(s[i]@ != s[j]@);
            } else {
                assert(s[j]@ != s[i]@);
            }
        }
    }
    sv.unique_seq_to_set();
    keys.lemma_cardinality_of_set();
    assert(sv.to_set().subset_of(keys.to_set())) by {
        assert forall|x: Seq<char>| sv.to_set().contains(x) implies keys.to_set().contains(x) by {
            let i = choose|i: int| 0 <= i < sv.len() && sv[i] == x;
            assert(kv_has(kv, s[i]@));
            let j = choose|j: int| 0 <= j < kv.len() && #[trigger] kv[j].0 == s[i]@;
            assert(keys[j] == x);
        }
    }
    vstd::set_lib::lemma_len_subset(sv.to_set(), keys.to_set());
}

fn dependency_error(message: &str) -> (r: AgentError)
    ensures
        r.code == ErrorCode::MemoryEquivalenceUnproved,
{
    AgentError::new(ErrorCode::MemoryEquivalenceUnproved, message)
}

/// Visits value `value`: finishes its defining operation after the operations
/// that it reads from.
#[verifier::rlimit(50)]
fn visit(
    p: &ImplProgram,
    value: &str,
    stack: &mut Vec<String>,
    reached: &mut IdMap<u64>,
    Ghost(cert): Ghost<(Set<Seq<char>>, spec_fn(Seq<char>) -> nat)>,
) -> (r: AgentResult<()>)
    requires
        search_state(*p, old(stack)@, *old(reached)),
        old(stack)@.len() <= p.operations.spec_len(),
        (old(stack)@.len() == 0 && root_value(*p, value@))
            || (old(stack)@.len() > 0 && op_reads(p.operations@[old(stack)@.last()@], value@)),
        certifies(*p, cert) ==> stack_ranked(old(stack)@, cert),
    ensures
        match r {
            Ok(()) => {
                &&& final(stack)@ == old(stack)@
                &&& search_state(*p, final(stack)@, *final(reached))
                &&& p.values@.contains_key(value@)
                &&& final(reached)@.contains_key(def_op(*p, value@))
                &&& forall|o: Seq<char>| #[trigger] old(reached)@.contains_key(o) ==>
                    final(reached)@.contains_key(o) && final(reached)@[o] == old(reached)@[o]
            },
            Err(e) => e.code == ErrorCode::MemoryEquivalenceUnproved && !certifies(*p, cert),
        },
    decreases p.operations.spec_len() - old(stack)@.len(),
{
    let ghost s0 = old(stack)@;
    proof {
        if certifies(*p, cert) {
            if s0.len() == 0 {
                assert(root_value(*p, value@));
            } else {
                let top = s0.len() - 1;
                assert(cert.0.contains(s0[top]@));
                assert(op_reads(p.operations@[s0[top]@], value@));
            }
            assert(enters(*p, cert.0, value@));
        }
    }
    let definition = match p.values.get(value) {
        Some(d) => d,
        None => {
            return Err(dependency_error("reachable ImplIR value is missing"));
        },
    };
    let operation = match &definition.origin {
        ImplValueOrigin::Operation(o) => o,
    };
    assert(operation@ == def_op(*p, value@));
    if reached.contains_key(operation.as_str()) {
        return Ok(());
    }
    if contains_id(stack, operation.as_str()) {
        proof {
            if certifies(*p, cert) {
                let k = choose|k: int| 0 <= k < s0.len() && (#[trigger] s0[k])@ == operation@;
                let top = s0.len() - 1;
                assert(cert.0.contains(s0[top]@));
                assert(op_reads(p.operations@[s0[top]@], value@));
                assert((cert.1)(operation@) < (cert.1)(s0[top]@));
                if k < top {
                    assert((cert.1)(s0[top]@) < (cert.1)(s0[k]@));
                }
                assert(false);
            }
        }
        return Err(dependency_error("ImplIR dependency cycle reached during bufferization"));
    }
    let op = match p.operations.get(operation.as_str()) {
        Some(o) => o,
        None => {
            return Err(dependency_error("reachable ImplIR operation is missing"));
        },
    };
    stack.push(operation.clone());
    let ghost base = stack@;
    proof {
        assert(base == s0.push(base.last()));
        assert(base.last()@ == operation@);
        assert forall|i: int, j: int| 0 <= i < j < base.len() implies (#[trigger] base[i])@ != (#[trigger] base[j])@ by {
            if j == base.len() - 1 {
                assert(s0[i]@ != operation@);
            } else {
                assert(s0[i] == base[i] && s0[j] == base[j]);
            }
        }
        assert forall|i: int| 0 <= i < base.len() implies kv_has(p.operations.kv(), (#[trigger] base[i])@) by {
            if i < base.len() - 1 {
                assert(base[i] == s0[i]);
            }
        }
        lemma_distinct_keys_bounded(base, p.operations.kv());
        assert forall|c: Set<Seq<char>>| #[trigger] read_closed(*p, c) implies c.contains(operation@) by {
            if s0.len() == 0 {
                assert(root_value(*p, value@));
            } else {
                let top = s0.len() - 1;
                assert(c.contains(s0[top]@));
                assert(op_reads(p.operations@[s0[top]@], value@));
            }
            assert(enters(*p, c, value@));
        }
        assert(search_state(*p, base, *reached)) by {
            assert forall|c: Set<Seq<char>>| #[trigger] read_closed(*p, c) implies
                (forall|i: int| 0 <= i < base.len() ==> #[trigger] c.contains(base[i]@)) by {
                assert forall|i: int| 0 <= i < base.len() implies #[trigger] c.contains(base[i]@) by {
                    if i < base.len() - 1 {
                        assert(base[i] == s0[i]);
                    }
                }
            }
            assert forall|i: int| 0 <= i < base.len() implies !reached@.contains_key((#[trigger] base[i])@) by {
                if i < base.len() - 1 {
                    assert(base[i] == s0[i]);
                }
            }
            assert forall|i: int| 0 <= i < base.len() implies p.operations@.contains_key((#[trigger] base[i])@) by {
                if i < base.len() - 1 {
                    assert(base[i] == s0[i]);
                }
            }
        }
        if certifies(*p, cert) {
            assert(cert.0.contains(operation@));
            if s0.len() > 0 {
                let top = s0.len() - 1;
                assert(op_reads(p.operations@[s0[top]@], value@));
                assert((cert.1)(operation@) < (cert.1)(s0[top]@));
            }
            assert(stack_ranked(base, cert)) by {
                assert forall|i: int, j: int| 0 <= i < j < base.len() implies
                    (cert.1)((#[trigger] base[j])@) < (cert.1)((#[trigger] base[i])@) by {
                    if j == base.len() - 1 {
                        let top = s0.len() - 1;
                        if i < top {
                            assert((cert.1)(s0[top]@) < (cert.1)(s0[i]@));
                        }
                        assert(base[i] == s0[i]);
                    } else {
                        assert(base[i] == s0[i] && base[j] == s0[j]);
                    }
                }
                assert forall|i: int| 0 <= i < base.len() implies cert.0.contains((#[trigger] base[i])@) by {
                    if i < base.len() - 1 {
                        assert(base[i] == s0[i]);
                    }
                }
            }
        }
    }
    let ghost reached0 = *reached;
    let mut k: usize = 0;
    while k < op.operands.len()
        invariant
            stack@ == base,
            base.len() == s0.len() + 1,
            s0 == old(stack)@,
            base.len() > 0,
            base.last()@ == operation@,
            p.operations@.contains_key(operation@),
            p.operations@[operation@] == *op,
            base.len() <= p.operations.spec_len(),
            search_state(*p, stack@, *reached),
            certifies(*p, cert) ==> stack_ranked(stack@, cert),
            k <= op.operands@.len(),
            forall|j: int| 0 <= j < k ==> p.values@.contains_key((#[trigger] op.operands@[j])@)
                && reached@.contains_key(def_op(*p, op.operands@[j]@)),
            forall|o: Seq<char>| #[trigger] reached0@.contains_key(o) ==>
                reached@.contains_key(o) && reached@[o] == reached0@[o],
        decreases op.operands.len() - k,
    {
        assert(op_reads(p.operations@[stack@.last()@], op.operands@[k as int]@));
        match visit(p, op.operands[k].as_str(), stack, reached, Ghost(cert)) {
            Ok(()) => {},
            Err(e) => {
                return Err(e);
            },
        }
        k = k + 1;
    }
    match &op.region {
        Some(region) => {
            let mut k: usize = 0;
            while k < region.captures.len()
                invariant
                    stack@ == base,
                    base.len() == s0.len() + 1,
                    s0 == old(stack)@,
            s0 == old(stack)@,
                    base.len() > 0,
                    base.last()@ == operation@,
                    p.operations@.contains_key(operation@),
                    p.operations@[operation@] == *op,
                    op.region == Some(*region),
                    base.len() <= p.operations.spec_len(),
                    search_state(*p, stack@, *reached),
                    certifies(*p, cert) ==> stack_ranked(stack@, cert),
                    k <= region.captures@.len(),
                    forall|j: int| 0 <= j < op.operands@.len() ==> p.values@.contains_key((#[trigger] op.operands@[j])@)
                        && reached@.contains_key(def_op(*p, op.operands@[j]@)),
                    forall|j: int| 0 <= j < k ==> p.values@.contains_key((#[trigger] region.captures@[j])@)
                        && reached@.contains_key(def_op(*p, region.captures@[j]@)),
                    forall|o: Seq<char>| #[trigger] reached0@.contains_key(o) ==>
                        reached@.contains_key(o) && reached@[o] == reached0@[o],
                decreases region.captures.len() - k,
            {
                assert(op_reads(p.operations@[stack@.last()@], region.captures@[k as int]@));
                match visit(p, region.captures[k].as_str(), stack, reached, Ghost(cert)) {
                    Ok(()) => {},
                    Err(e) => {
                        return Err(e);
                    },
                }
                k = k + 1;
            }
        },
        None => {},
    }
    let ghost reached1 = *reached;
    proof {
        assert forall|v: Seq<char>| #[trigger] op_reads(*op, v) implies
            p.values@.contains_key(v) && reached1@.contains_key(def_op(*p, v)) by {
            if ids_contain(op.operands@, v) {
                let j = choose|j: int| 0 <= j < op.operands@.len() && (#[trigger] op.operands@[j])@ == v;
                assert(p.values@.contains_key(op.operands@[j]@));
            } else {
                let region = op.region->0;
                let j = choose|j: int| 0 <= j < region.captures@.len() && (#[trigger] region.captures@[j])@ == v;
                assert(p.values@.contains_key(region.captures@[j]@));
            }
        }
        assert(!reached1@.contains_key(operation@)) by {
            assert(base[base.len() - 1]@ == operation@);
        }
    }
    let _ = stack.pop();
    let pos = reached.len() as u64;
    reached.insert(operation.clone(), pos);
    proof {
        assert(stack@ =~= s0);
        let rn = *reached;
        assert(rn.spec_len() == reached1.spec_len() + 1);
        assert forall|i: int| 0 <= i < s0.len() implies !rn@.contains_key((#[trigger] s0[i])@) by {
            assert(base[i] == s0[i]);
            assert(s0[i]@ != base[base.len() - 1]@);
        }
        assert forall|o: Seq<char>| #[trigger] rn@.contains_key(o) implies
            p.operations@.contains_key(o) && rn@[o] < rn.spec_len() by {
            if o != operation@ {
                assert(reached1@.contains_key(o));
            }
        }
        assert forall|o: Seq<char>, v: Seq<char>|
            rn@.contains_key(o) && #[trigger] op_reads(p.operations@[o], v) implies {
                &&& p.values@.contains_key(v)
                &&& rn@.contains_key(def_op(*p, v))
                &&& rn@[def_op(*p, v)] < rn@[o]
            } by {
            if o == operation@ {
                assert(op_reads(*op, v));
                assert(reached1@.contains_key(def_op(*p, v)));
            } else {
                assert(reached1@.contains_key(o));
            }
        }
        assert forall|c: Set<Seq<char>>| #[trigger] read_closed(*p, c) implies {
            &&& forall|o: Seq<char>| rn@.contains_key(o) ==> #[trigger] c.contains(o)
            &&& forall|i: int| 0 <= i < s0.len() ==> #[trigger] c.contains(s0[i]@)
        } by {
            assert(c.contains(base[base.len() - 1]@));
            assert forall|i: int| 0 <= i < s0.len() implies #[trigger] c.contains(s0[i]@) by {
                assert(base[i] == s0[i]);
            }
            assert forall|o: Seq<char>| rn@.contains_key(o) implies #[trigger] c.contains(o) by {
                if o != operation@ {
                    assert(reached1@.contains_key(o));
                }
            }
        }
        assert forall|i: int, j: int| 0 <= i < j < s0.len() implies (#[trigger] s0[i])@ != (#[trigger] s0[j])@ by {
            assert(base[i] == s0[i] && base[j] == s0[j]);
        }
        assert forall|i: int| 0 <= i < s0.len() implies p.operations@.contains_key((#[trigger] s0[i])@) by {
            assert(base[i] == s0[i]);
        }
    }
    Ok(())
}

/// Collects the operations that the parameters and outputs depend on, each
/// with its position in a dependency-first order.
///
/// The search succeeds exactly when the dependencies are complete and acyclic;
/// it then yields the least read-closed set of operations.
pub fn reachable_impl_operations(program: &ImplProgram) -> (r: AgentResult<IdMap<u64>>)
    ensures
        match r {
            Ok(s) => {
                &&& read_closed(*program, s@.dom())
                &&& rank_decreasing(*program, s@.dom(), |o: Seq<char>| s@[o] as nat)
                &&& forall|c: Set<Seq<char>>| #[trigger] read_closed(*program, c) ==> s@.dom().subset_of(c)
            },
            Err(e) => e.code == ErrorCode::MemoryEquivalenceUnproved && !dependencies_well_founded(*program),
        },
{
    let ghost cert = choose|cert: (Set<Seq<char>>, spec_fn(Seq<char>) -> nat)| #[trigger] certifies(*program, cert);
    proof {
        if dependencies_well_founded(*program) {
            assert(certifies(*program, cert));
        }
    }
    let mut stack: Vec<String> = Vec::new();
    let mut reached: IdMap<u64> = IdMap::new();
    let np = program.parameters.len();
    let mut i: usize = 0;
    while i < np
        invariant
            np == program.parameters.kv().len(),
            i <= np,
            stack@.len() == 0,
            search_state(*program, stack@, reached),
            dependencies_well_founded(*program) ==> certifies(*program, cert),
            forall|j: int| 0 <= j < i ==> enters(*program, reached@.dom(), (#[trigger] program.parameters.kv()[j]).1@),
        decreases np - i,
    {
        let (_, v) = program.parameters.entry_at(i);
        let ghost before = reached;
        assert(root_value(*program, v@));
        match visit(program, v.as_str(), &mut stack, &mut reached, Ghost(cert)) {
            Ok(()) => {},
            Err(e) => {
                proof {
                    if dependencies_well_founded(*program) {
                        assert(certifies(*program, cert));
                    }
                }
                return Err(e);
            },
        }
        proof {
            assert forall|j: int| 0 <= j < i + 1 implies enters(*program, reached@.dom(), (#[trigger] program.parameters.kv()[j]).1@) by {
                if j < i {
                    assert(enters(*program, before@.dom(), program.parameters.kv()[j].1@));
                }
            }
        }
        i = i + 1;
    }
    let no = program.outputs.len();
    let mut i: usize = 0;
    while i < no
        invariant
            np == program.parameters.kv().len(),
            no == program.outputs.kv().len(),
            i <= no,
            stack@.len() == 0,
            search_state(*program, stack@, reached),
            dependencies_well_founded(*program) ==> certifies(*program, cert),
            forall|j: int| 0 <= j < np ==> enters(*program, reached@.dom(), (#[trigger] program.parameters.kv()[j]).1@),
            forall|j: int| 0 <= j < i ==> enters(*program, reached@.dom(), (#[trigger] program.outputs.kv()[j]).1.value@),
        decreases no - i,
    {
        let (_, out) = program.outputs.entry_at(i);
        let ghost before = reached;
        assert(root_value(*program, out.value@));
        match visit(program, out.value.as_str(), &mut stack, &mut reached, Ghost(cert)) {
            Ok(()) => {},
            Err(e) => {
                proof {
                    if dependencies_well_founded(*program) {
                        assert(certifies(*program, cert));
                    }
                }
                return Err(e);
            },
        }
        proof {
            assert forall|j: int| 0 <= j < i + 1 implies enters(*program, reached@.dom(), (#[trigger] program.outputs.kv()[j]).1.value@) by {
                if j < i {
                    assert(enters(*program, before@.dom(), program.outputs.kv()[j].1.value@));
                }
            }
            assert forall|j: int| 0 <= j < np implies enters(*program, reached@.dom(), (#[trigger] program.parameters.kv()[j]).1@) by {
                assert(enters(*program, before@.dom(), program.parameters.kv()[j].1@));
            }
        }
        i = i + 1;
    }
    proof {
        let d = reached@.dom();
        assert forall|v: Seq<char>| #[trigger] root_value(*program, v) implies enters(*program, d, v) by {
            if is_parameter_value(*program, v) {
                let j = choose|j: int| 0 <= j < program.parameters.kv().len() && (#[trigger] program.parameters.kv()[j]).1@ == v;
                assert(enters(*program, d, program.parameters.kv()[j].1@));
            } else {
                let j = choose|j: int| 0 <= j < program.outputs.kv().len() && (#[trigger] program.outputs.kv()[j]).1.value@ == v;
                assert(enters(*program, d, program.outputs.kv()[j].1.value@));
            }
        }
        assert(read_closed(*program, d));
        assert forall|c: Set<Seq<char>>| #[trigger] read_closed(*program, c) implies d.subset_of(c) by {
            assert forall|o: Seq<char>| d.contains(o) implies c.contains(o) by {
                assert(reached@.contains_key(o));
            }
        }
    }
    Ok(reached)
}

/// The operations the parameters and outputs depend on, as the candidate
/// rewrites compute them: the same search, with an incomplete or cyclic
/// dependency graph reported as an implementation verification failure.
pub fn reachable_operations(program: &ImplProgram) -> (r: AgentResult<IdMap<u64>>)
    ensures
        match r {
            Ok(s) => {
                &&& read_closed(*program, s@.dom())
                &&& rank_decreasing(*program, s@.dom(), |o: Seq<char>| s@[o] as nat)
                &&& forall|c: Set<Seq<char>>| #[trigger] read_closed(*program, c) ==> s@.dom().subset_of(c)
            },
            Err(e) => e.code == ErrorCode::ImplVerificationFailed && !dependencies_well_founded(*program),
        },
{
    match reachable_impl_operations(program) {
        Ok(s) => Ok(s),
        Err(_) => Err(AgentError::new(ErrorCode::ImplVerificationFailed, "ImplIR dependencies are missing or cyclic")),
    }
}

} // verus!
