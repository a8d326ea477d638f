//! Bounded deterministic memory continuations: the legal in-place reuse
//! choices of a memory plan revision, without mutation.

use crate::diagnostics::{AgentError, AgentResult, ErrorCode};
use crate::impl_ir::{origin_op, ImplHash, ImplProgram};
use crate::memory::{MemoryContinuation, MemoryContinuationChoice, MemoryHash, MemoryPlanStore, MemoryRevision};
use crate::memory_ir::{
    prove_static_reuse, reuse_failure, reuse_result_defined, value_type, AddressSpace, MemoryBuffer, MemoryProgram,
};
use crate::resources::ResourceLimits;
use crate::text::{lemma_less_asymmetric, lemma_less_irreflexive, lemma_less_total, lemma_less_transitive, seq_le, seq_less, str_eq, str_less};
use crate::types::{Type, TypeV};
use vstd::prelude::*;

verus! {

/// Model of a reuse choice: result, input, statically applicable, failed
/// side condition, fresh fallback present, guard profile.
pub type ChoiceV = (Seq<char>, Seq<char>, bool, Option<ErrorCode>, bool, Seq<char>);

/// Model of a reuse choice.
pub open spec fn choice_view(c: MemoryContinuationChoice) -> ChoiceV {
    (
        c.result@,
        c.input@,
        c.statically_applicable,
        c.failed_side_condition,
        c.fresh_fallback,
        c.supported_guard_profile@,
    )
}

/// The choice of reusing `input` for `result`, whose fresh baseline buffer is `fresh`.
#[verifier::opaque]
pub open spec fn choice_for(m: MemoryProgram, p: ImplProgram, result: Seq<char>, input: Seq<char>, fresh: Seq<char>) -> ChoiceV {
    let f = reuse_failure(m, p, input, result);
    (result, input, f is None, f, m.buffers@.contains_key(fresh), "no_overlap"@)
}

/// Choices from the operands of `result`'s defining operation from position
/// `j` on, appended to `acc`; an operand counts when its type is `ty`. Fails
/// once more than `limit` choices are collected.
pub open spec fn operand_scan(
    m: MemoryProgram,
    p: ImplProgram,
    result: Seq<char>,
    fresh: Seq<char>,
    ty: TypeV,
    ops: Seq<String>,
    j: nat,
    acc: Seq<ChoiceV>,
    limit: u64,
) -> Result<Seq<ChoiceV>, ErrorCode>
    decreases ops.len() - j,
{
    if j >= ops.len() {
        Ok(acc)
    } else if value_type(p, ops[j as int]@) != Some(ty) {
        operand_scan(m, p, result, fresh, ty, ops, j + 1, acc, limit)
    } else {
        let next = acc.push(choice_for(m, p, result, ops[j as int]@, fresh));
        if next.len() > limit {
            Err(ErrorCode::ResourceLimitExceeded)
        } else {
            operand_scan(m, p, result, fresh, ty, ops, j + 1, next, limit)
        }
    }
}

/// Choices for the fresh baselines from position `i` on, appended to `acc`.
pub open spec fn baseline_scan(
    m: MemoryProgram,
    p: ImplProgram,
    kv: Seq<(Seq<char>, MemoryBuffer)>,
    i: nat,
    acc: Seq<ChoiceV>,
    limit: u64,
) -> Result<Seq<ChoiceV>, ErrorCode>
    decreases kv.len() - i,
{
    if i >= kv.len() {
        Ok(acc)
    } else if !p.values@.contains_key(kv[i as int].0) {
        Err(ErrorCode::MemoryEquivalenceUnproved)
    } else {
        let def = p.values@[kv[i as int].0];
        let op = p.operations@[origin_op(def)];
        match operand_scan(m, p, kv[i as int].0, kv[i as int].1.id@, def.ty@, op.operands@, 0, acc, limit) {
            Ok(a) => baseline_scan(m, p, kv, i + 1, a, limit),
            Err(c) => Err(c),
        }
    }
}

/// Every fresh baseline whose value is defined has a defining operation
/// whose operands are defined, and a defining operation for reuse proofs.
pub open spec fn continuation_defined(m: MemoryProgram, p: ImplProgram) -> bool {
    forall|r: Seq<char>|
        #[trigger] m.fresh_baseline_buffers@.contains_key(r) && p.values@.contains_key(r) ==> {
            &&& p.operations@.contains_key(origin_op(p.values@[r]))
            &&& forall|j: int|
                0 <= j < p.operations@[origin_op(p.values@[r])].operands@.len() ==> p.values@.contains_key(
                    (#[trigger] p.operations@[origin_op(p.values@[r])].operands@[j])@,
                )
            &&& reuse_result_defined(p, r)
        }
}

/// Order of choices by result, then input.
pub open spec fn choice_le(a: ChoiceV, b: ChoiceV) -> bool {
    seq_less(a.0, b.0) || (a.0 == b.0 && seq_le(a.1, b.1))
}

/// Choices in order of result, then input.
pub open spec fn choices_sorted(s: Seq<ChoiceV>) -> bool {
    forall|i: int, j: int| 0 <= i < j < s.len() ==> choice_le(#[trigger] s[i], #[trigger] s[j])
}

proof fn lemma_choice_le_transitive(a: ChoiceV, b: ChoiceV, c: ChoiceV)
    requires
        choice_le(a, b),
        choice_le(b, c),
    ensures
        choice_le(a, c),
{
    if seq_less(a.0, b.0) && seq_less(b.0, c.0) {
        lemma_less_transitive(a.0, b.0, c.0);
    }
    if a.0 == b.0 && b.0 == c.0 && seq_less(a.1, b.1) && seq_less(b.1, c.1) {
        lemma_less_transitive(a.1, b.1, c.1);
    }
}

proof fn lemma_choice_le_total(a: ChoiceV, b: ChoiceV)
    ensures
        choice_le(a, b) || choice_le(b, a),
{
    lemma_less_total(a.0, b.0);
    lemma_less_total(a.1, b.1);
}

fn choice_le_exec(a: &MemoryContinuationChoice, b: &MemoryContinuationChoice) -> (r: bool)
    ensures
        r == choice_le(choice_view(*a), choice_view(*b)),
{
    if str_less(a.result.as_str(), b.result.as_str()) {
        true
    } else if str_eq(a.result.as_str(), b.result.as_str()) {
        str_eq(a.input.as_str(), b.input.as_str()) || str_less(a.input.as_str(), b.input.as_str())
    } else {
        false
    }
}

/// The views of a choice sequence.
pub open spec fn choice_views(v: Seq<MemoryContinuationChoice>) -> Seq<ChoiceV> {
    v.map_values(|c: MemoryContinuationChoice| choice_view(c))
}

/// Sorts choices by result, then input.
fn sort_choices(v: Vec<MemoryContinuationChoice>) -> (r: Vec<MemoryContinuationChoice>)
    ensures
        choices_sorted(choice_views(r@)),
        choice_views(r@).to_multiset() == choice_views(v@).to_multiset(),
{
    broadcast use vstd::seq_lib::group_to_multiset_ensures;

    let ghost all = choice_views(v@);
    let mut rest = v;
    let mut out: Vec<MemoryContinuationChoice> = Vec::new();
    proof {
        assert(choice_views(out@) =~= Seq::<ChoiceV>::empty());
    }
    while rest.len() > 0
        invariant
            choices_sorted(choice_views(out@)),
            choice_views(out@).to_multiset().add(choice_views(rest@).to_multiset()) == all.to_multiset(),
        decreases rest@.len(),
    {
        let ghost before_rest = rest@;
        let c = rest.pop().unwrap();
        proof {
            assert(choice_views(before_rest) =~= choice_views(rest@).push(choice_view(c)));
        }
        let mut pos: usize = 0;
        while pos < out.len() && choice_le_exec(&out[pos], &c)
            invariant
                pos <= out@.len(),
                forall|i: int| 0 <= i < pos ==> choice_le(choice_view(#[trigger] out@[i]), choice_view(c)),
            decreases out@.len() - pos,
        {
            pos = pos + 1;
        }
        let ghost before = out@;
        out.insert(pos, c);
        proof {
            let bv = choice_views(before);
            let cv = choice_view(c);
            assert(choice_views(out@) =~= bv.insert(pos as int, cv));
            if pos < before.len() {
                lemma_choice_le_total(bv[pos as int], cv);
            }
            assert forall|i: int, j: int| 0 <= i < j < choice_views(out@).len() implies choice_le(
                #[trigger] choice_views(out@)[i],
                #[trigger] choice_views(out@)[j],
            ) by {
                let s = choice_views(out@);
                if j < pos {
                    assert(s[i] == bv[i] && s[j] == bv[j]);
                } else if j == pos {
                    assert(s[i] == bv[i]);
                } else if i == pos {
                    assert(s[j] == bv[j - 1]);
                    if j - 1 > pos {
                        lemma_choice_le_transitive(cv, bv[pos as int], bv[j - 1]);
                    }
                } else if i < pos {
                    assert(s[i] == bv[i] && s[j] == bv[j - 1]);
                } else {
                    assert(s[i] == bv[i - 1] && s[j] == bv[j - 1]);
                }
            }
            vstd::seq_lib::to_multiset_insert(bv, pos as int, cv);
            vstd::seq_lib::to_multiset_build(choice_views(rest@), cv);
            assert(choice_views(out@).to_multiset().add(choice_views(rest@).to_multiset()) =~= bv.to_multiset().add(
                choice_views(before_rest).to_multiset(),
            ));
        }
    }
    proof {
        assert(choice_views(rest@) =~= Seq::<ChoiceV>::empty());
        assert(choice_views(out@).to_multiset().add(vstd::multiset::Multiset::empty()) =~= choice_views(out@).to_multiset());
    }
    out
}

/// Appends the choices from the operands `ops` of the defining operation of
/// `result`, failing once more than `limit` choices are collected.
fn push_operand_choices(
    m: &MemoryProgram,
    implementation: &ImplProgram,
    result: &String,
    fresh: &MemoryBuffer,
    ty: &Type,
    ops: &Vec<String>,
    choices: &mut Vec<MemoryContinuationChoice>,
    limit: u64,
) -> (r: AgentResult<()>)
    requires
        forall|t: int| 0 <= t < ops@.len() ==> implementation.values@.contains_key((#[trigger] ops@[t])@),
        reuse_result_defined(*implementation, result@),
    ensures
        match operand_scan(*m, *implementation, result@, fresh.id@, ty@, ops@, 0, choice_views(old(choices)@), limit) {
            Ok(a) => r is Ok && choice_views(final(choices)@) == a,
            Err(c) => r matches Err(e) && e.code == c,
        },
{
    let ghost p = *implementation;
    let ghost start = choice_views(choices@);
    let mut j: usize = 0;
    while j < ops.len()
        invariant
            p == *implementation,
            forall|t: int| 0 <= t < ops@.len() ==> p.values@.contains_key((#[trigger] ops@[t])@),
            reuse_result_defined(p, result@),
            start == choice_views(old(choices)@),
            j <= ops@.len(),
            operand_scan(*m, p, result@, fresh.id@, ty@, ops@, j as nat, choice_views(choices@), limit) == operand_scan(
                *m,
                p,
                result@,
                fresh.id@,
                ty@,
                ops@,
                0,
                start,
                limit,
            ),
        decreases ops@.len() - j,
    {
        let input = &ops[j];
        let input_value = implementation.values.get(input.as_str()).unwrap();
        if input_value.ty.same(ty) {
            let proved = prove_static_reuse(m, implementation, input.as_str(), result.as_str());
            let (applicable, failed) = match proved {
                Ok(_) => (true, None),
                Err(e) => (false, Some(e.code)),
            };
            let ghost prev = choices@;
            choices.push(
                MemoryContinuationChoice {
                    result: result.clone(),
                    input: input.clone(),
                    statically_applicable: applicable,
                    failed_side_condition: failed,
                    fresh_fallback: m.buffers.contains_key(fresh.id.as_str()),
                    supported_guard_profile: String::from_str("no_overlap"),
                },
            );
            proof {
                assert(choice_view(choices@.last()) == choice_for(*m, p, result@, input@, fresh.id@)) by {
                    reveal(choice_for);
                }
                assert(choice_views(choices@) =~= choice_views(prev).push(choice_for(*m, p, result@, input@, fresh.id@)));
            }
            if choices.len() as u64 > limit {
                proof {
                    assert(operand_scan(*m, p, result@, fresh.id@, ty@, ops@, j as nat, choice_views(prev), limit)
                        == Err::<Seq<ChoiceV>, ErrorCode>(ErrorCode::ResourceLimitExceeded));
                }
                return Err(AgentError::new(ErrorCode::ResourceLimitExceeded, "memory continuation"));
            }
        }
        j = j + 1;
    }
    Ok(())
}

/// Whether `k` is the continuation of revision `rev` of plan `plan` with the
/// reuse choices `cs`, ordered by result and input.
pub open spec fn continuation_matches(k: MemoryContinuation, plan: Seq<char>, revision: Seq<char>, rev: MemoryRevision, cs: Seq<ChoiceV>) -> bool {
    &&& k.memory_plan@ == plan
    &&& k.memory_revision@ == revision
    &&& k.expected_memory_hash.0@ == rev.memory_hash.0@
    &&& k.expected_impl_hash.0@ == rev.impl_hash.0@
    &&& choices_sorted(choice_views(k.reuse_choices@))
    &&& choice_views(k.reuse_choices@).to_multiset() == cs.to_multiset()
    &&& k.address_spaces@ == seq![AddressSpace::Global, AddressSpace::Shared, AddressSpace::Private, AddressSpace::Constant]
    &&& k.layouts@.map_values(|s: String| s@) == seq!["contiguous_row_major"@, "explicit_strided"@]
}

impl MemoryPlanStore {
    /// Returns the bounded, deterministic in-place reuse choices of one memory
    /// revision, without changing state: for each fresh result, each operand
    /// of its defining operation with the same type, with the outcome of the
    /// static reuse proof; ordered by result, then input.
    pub fn continuation(&self, plan: &str, revision: &str, implementation: &ImplProgram, limits: &ResourceLimits) -> (r: AgentResult<MemoryContinuation>)
        requires
            self.plans@.contains_key(plan@) && self.plans@[plan@].revisions@.contains_key(revision@) ==> continuation_defined(
                self.plans@[plan@].revisions@[revision@].program,
                *implementation,
            ),
        ensures
            !self.plans@.contains_key(plan@) ==> (r matches Err(e) && e.code == ErrorCode::MemoryPlanNotFound),
            self.plans@.contains_key(plan@) && !self.plans@[plan@].revisions@.contains_key(revision@) ==> (r matches Err(
                e,
            ) && e.code == ErrorCode::MemoryRevisionNotFound),
            self.plans@.contains_key(plan@) && self.plans@[plan@].revisions@.contains_key(revision@) ==> {
                let rev = self.plans@[plan@].revisions@[revision@];
                match baseline_scan(
                    rev.program,
                    *implementation,
                    rev.program.fresh_baseline_buffers.kv(),
                    0,
                    Seq::empty(),
                    limits.memory_reuse_attempts,
                ) {
                    Err(c) => r matches Err(e) && e.code == c,
                    Ok(cs) => r matches Ok(k) && continuation_matches(k, plan@, revision@, rev, cs),
                }
            },
    {
        let rev = self.revision(plan, revision)?;
        let m = &rev.program;
        let ghost p = *implementation;
        let limit = limits.memory_reuse_attempts;
        let baselines = &m.fresh_baseline_buffers;
        let ghost kv = baselines.kv();
        let ghost total = baseline_scan(*m, p, kv, 0, Seq::empty(), limit);
        let mut choices: Vec<MemoryContinuationChoice> = Vec::new();
        proof {
            assert(choice_views(choices@) =~= Seq::<ChoiceV>::empty());
        }
        let n = baselines.len();
        let mut i: usize = 0;
        while i < n
            invariant
                p == *implementation,
                kv == baselines.kv(),
                n == kv.len(),
                i <= n,
                limit == limits.memory_reuse_attempts,
                continuation_defined(*m, p),
                *baselines == m.fresh_baseline_buffers,
                self.plans@.contains_key(plan@),
                self.plans@[plan@].revisions@.contains_key(revision@),
                *rev == self.plans@[plan@].revisions@[revision@],
                *m == rev.program,
                total == baseline_scan(*m, p, kv, 0, Seq::empty(), limit),
                baseline_scan(*m, p, kv, i as nat, choice_views(choices@), limit) == total,
            decreases n - i,
        {
            let (result, fresh) = baselines.entry_at(i);
            proof {
                crate::idmap::lemma_kv_at(kv, i as int);
            }
            let definition = match implementation.values.get(result.as_str()) {
                Some(d) => d,
                None => {
                    return Err(AgentError::new(ErrorCode::MemoryEquivalenceUnproved, "continuation result is missing from ImplIR"));
                },
            };
            let op_id = match &definition.origin {
                crate::impl_ir::ImplValueOrigin::Operation(o) => o,
            };
            proof {
                assert(m.fresh_baseline_buffers@.contains_key(result@));
                assert(p.values@.contains_key(result@));
                assert(origin_op(p.values@[result@]) == op_id@);
            }
            let op = implementation.operations.get(op_id.as_str()).unwrap();
            let ghost start = choice_views(choices@);
            proof {
                assert forall|t: int| 0 <= t < op.operands@.len() implies p.values@.contains_key((#[trigger] op.operands@[t])@) by {
                    assert(op.operands@[t] == p.operations@[origin_op(p.values@[result@])].operands@[t]);
                }
            }
            match push_operand_choices(m, implementation, result, fresh, &definition.ty, &op.operands, &mut choices, limit) {
                Ok(()) => {},
                Err(e) => {
                    return Err(e);
                },
            }
            i = i + 1;
        }
        let sorted = sort_choices(choices);
        let layouts = vec![String::from_str("contiguous_row_major"), String::from_str("explicit_strided")];
        proof {
            assert(layouts@.map_values(|s: String| s@) =~= seq!["contiguous_row_major"@, "explicit_strided"@]);
        }
        Ok(MemoryContinuation {
            memory_plan: String::from_str(plan),
            memory_revision: String::from_str(revision),
            expected_memory_hash: MemoryHash::new(rev.memory_hash.0.clone()),
            expected_impl_hash: ImplHash::new(rev.impl_hash.0.clone()),
            reuse_choices: sorted,
            address_spaces: vec![AddressSpace::Global, AddressSpace::Shared, AddressSpace::Private, AddressSpace::Constant],
            layouts,
        })
    }
}

} // verus!
