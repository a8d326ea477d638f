//! Immutable revision snapshots, their compact status summaries and
//! structural diffs.

use crate::holes::{Hole, HoleStatus};
use crate::idmap::{kv_has, kv_keys, kv_map, sorted_kv, IdMap};
use crate::ids::{HoleId, OperationId, RevisionId, TransactionId, ValueId};
use crate::ir::Program;
use crate::obligations::{ObligationStatus, ProofObligation};
use crate::semantic::SpecHash;
use crate::text::{seq_less, str_eq};
use crate::memory_ir::opt_view;
use vstd::prelude::*;

verus! {

/// Compact verifier summary stored with a revision.
#[derive(Clone, Copy, Debug, PartialEq, Eq, Structural)]
pub struct StatusSummary {
    /// Number of logical values.
    pub values: usize,
    /// Number of operations.
    pub operations: usize,
    /// Number of open holes.
    pub open_holes: usize,
    /// Number of open proof obligations.
    pub open_obligations: usize,
    /// Whether SpecIR is frozen.
    pub frozen: bool,
}

/// The number of open holes among the entries.
pub open spec fn open_hole_count(kv: Seq<(Seq<char>, Hole)>) -> nat
    decreases kv.len(),
{
    if kv.len() == 0 {
        0
    } else {
        open_hole_count(kv.drop_last()) + if kv.last().1.status == HoleStatus::Open {
            1nat
        } else {
            0nat
        }
    }
}

/// The number of open proof obligations among the entries.
pub open spec fn open_obligation_count(kv: Seq<(Seq<char>, ProofObligation)>) -> nat
    decreases kv.len(),
{
    if kv.len() == 0 {
        0
    } else {
        open_obligation_count(kv.drop_last()) + if kv.last().1.status == ObligationStatus::Open {
            1nat
        } else {
            0nat
        }
    }
}

proof fn lemma_open_hole_count_bound(kv: Seq<(Seq<char>, Hole)>)
    ensures
        open_hole_count(kv) <= kv.len(),
    decreases kv.len(),
{
    if kv.len() > 0 {
        lemma_open_hole_count_bound(kv.drop_last());
    }
}

proof fn lemma_open_obligation_count_bound(kv: Seq<(Seq<char>, ProofObligation)>)
    ensures
        open_obligation_count(kv) <= kv.len(),
    decreases kv.len(),
{
    if kv.len() > 0 {
        lemma_open_obligation_count_bound(kv.drop_last());
    }
}

fn count_open_holes(holes: &IdMap<Hole>) -> (r: usize)
    ensures
        r == open_hole_count(holes.kv()),
{
    let n = holes.len();
    let mut count: usize = 0;
    let mut i: usize = 0;
    while i < n
        invariant
            n == holes.kv().len(),
            i <= n,
            count == open_hole_count(holes.kv().take(i as int)),
        decreases n - i,
    {
        let (_, hole) = holes.entry_at(i);
        proof {
            assert(holes.kv().take(i + 1).drop_last() =~= holes.kv().take(i as int));
            lemma_open_hole_count_bound(holes.kv().take(i as int));
        }
        if hole.status == HoleStatus::Open {
            count = count + 1;
        }
        i = i + 1;
    }
    proof {
        assert(holes.kv().take(n as int) =~= holes.kv());
    }
    count
}

fn count_open_obligations(obligations: &IdMap<ProofObligation>) -> (r: usize)
    ensures
        r == open_obligation_count(obligations.kv()),
{
    let n = obligations.len();
    let mut count: usize = 0;
    let mut i: usize = 0;
    while i < n
        invariant
            n == obligations.kv().len(),
            i <= n,
            count == open_obligation_count(obligations.kv().take(i as int)),
        decreases n - i,
    {
        let (_, obligation) = obligations.entry_at(i);
        proof {
            assert(obligations.kv().take(i + 1).drop_last() =~= obligations.kv().take(i as int));
            lemma_open_obligation_count_bound(obligations.kv().take(i as int));
        }
        if obligation.status == ObligationStatus::Open {
            count = count + 1;
        }
        i = i + 1;
    }
    proof {
        assert(obligations.kv().take(n as int) =~= obligations.kv());
    }
    count
}

impl StatusSummary {
    /// Builds a summary from canonical program state: the value and
    /// operation counts, the open holes and open obligations, and the
    /// freeze flag.
    pub fn from_program(program: &Program) -> (r: Self)
        ensures
            r.values == program.values.spec_len(),
            r.operations == program.operations.spec_len(),
            r.open_holes == open_hole_count(program.holes.kv()),
            r.open_obligations == open_obligation_count(program.obligations.kv()),
            r.frozen == program.frozen,
    {
        StatusSummary {
            values: program.values.len(),
            operations: program.operations.len(),
            open_holes: count_open_holes(&program.holes),
            open_obligations: count_open_obligations(&program.obligations),
            frozen: program.frozen,
        }
    }
}

/// Immutable workspace revision.
#[derive(Debug)]
pub struct Revision {
    /// Persistent revision ID.
    pub id: RevisionId,
    /// One or more immutable parents; Stage 1 creates at most one.
    pub parents: Vec<RevisionId>,
    /// SHA-256 of deterministic canonical state.
    pub content_hash: String,
    /// History-independent semantic identity for a complete frozen SpecIR.
    pub spec_hash: Option<SpecHash>,
    /// Semantic canonical codec version used for `spec_hash`.
    pub semantic_canonical_version: Option<u32>,
    /// Full immutable Stage 1 graph snapshot.
    pub program: Program,
    /// Transaction that created the snapshot, absent for roots and explicit forks.
    pub applied_transaction: Option<TransactionId>,
    /// Wall-clock metadata excluded from the content hash.
    pub created_at_unix_ms: u128,
    /// Cached compact verifier summary.
    pub status: StatusSummary,
}

/// Added and removed IDs between two directly or indirectly related revisions.
#[derive(Debug)]
pub struct RevisionDiff {
    /// Source revision.
    pub from: RevisionId,
    /// Destination revision.
    pub to: RevisionId,
    /// Added operations.
    pub operations_added: Vec<OperationId>,
    /// Removed operations.
    pub operations_removed: Vec<OperationId>,
    /// Added values.
    pub values_added: Vec<ValueId>,
    /// Removed values.
    pub values_removed: Vec<ValueId>,
    /// Added holes.
    pub holes_added: Vec<HoleId>,
    /// Removed holes.
    pub holes_removed: Vec<HoleId>,
    /// Outputs whose target differs, including additions and removals.
    pub outputs_changed: IdMap<(Option<ValueId>, Option<ValueId>)>,
    /// Whether freeze state changed.
    pub frozen_changed: bool,
}

/// The keys of `keys` that `left` lacks, in their order.
pub open spec fn keys_absent<V>(keys: Seq<Seq<char>>, left: Map<Seq<char>, V>) -> Seq<Seq<char>>
    decreases keys.len(),
{
    if keys.len() == 0 {
        keys
    } else {
        let prefix = keys_absent(keys.drop_last(), left);
        if left.contains_key(keys.last()) {
            prefix
        } else {
            prefix.push(keys.last())
        }
    }
}

/// The views of a sequence of strings.
pub open spec fn string_views(v: Seq<String>) -> Seq<Seq<char>> {
    v.map_values(|s: String| s@)
}


/// The entry of `k` in a map, if any.
pub open spec fn opt_get(m: Map<Seq<char>, String>, k: Seq<char>) -> Option<String> {
    if m.contains_key(k) {
        Some(m[k])
    } else {
        None
    }
}

/// Whether the output `k` has a different target in the two output maps.
pub open spec fn output_differs(before: Map<Seq<char>, String>, after: Map<Seq<char>, String>, k: Seq<char>) -> bool {
    opt_view(opt_get(before, k)) != opt_view(opt_get(after, k))
}

/// The keys of `right`, in increasing order, that `left` does not contain.
fn added<L, R>(left: &IdMap<L>, right: &IdMap<R>) -> (r: Vec<String>)
    ensures
        string_views(r@) == keys_absent(kv_keys(right.kv()), left@),
{
    let n = right.len();
    let mut out: Vec<String> = Vec::new();
    let mut i: usize = 0;
    while i < n
        invariant
            n == right.kv().len(),
            i <= n,
            string_views(out@) == keys_absent(kv_keys(right.kv().take(i as int)), left@),
        decreases n - i,
    {
        let (k, _) = right.entry_at(i);
        let ghost prev = out@;
        proof {
            assert(kv_keys(right.kv().take(i + 1)).drop_last() =~= kv_keys(right.kv().take(i as int)));
            assert(kv_keys(right.kv().take(i + 1)).last() == k@);
        }
        if !left.contains_key(k.as_str()) {
            out.push(k.clone());
            proof {
                assert(string_views(out@) =~= string_views(prev).push(k@));
            }
        }
        i = i + 1;
    }
    proof {
        assert(right.kv().take(n as int) =~= right.kv());
    }
    out
}

fn opt_string_eq(a: &Option<String>, b: &Option<String>) -> (r: bool)
    ensures
        r == (opt_view(*a) == opt_view(*b)),
{
    match (a, b) {
        (Some(x), Some(y)) => str_eq(x.as_str(), y.as_str()),
        (None, None) => true,
        _ => false,
    }
}

fn get_cloned(m: &IdMap<String>, k: &str) -> (r: Option<String>)
    ensures
        r == opt_get(m@, k@),
{
    match m.get(k) {
        Some(v) => Some(v.clone()),
        None => None,
    }
}

/// Computes a deterministic structural diff between two snapshots: the
/// operation, value and hole IDs present in one snapshot and absent from the
/// other, in increasing order; every output name whose target differs,
/// mapped to its target before and after; and whether the freeze state
/// changed.
pub fn diff(from: &Revision, to: &Revision) -> (r: RevisionDiff)
    ensures
        r.from@ == from.id@,
        r.to@ == to.id@,
        string_views(r.operations_added@) == keys_absent(
            kv_keys(to.program.operations.kv()),
            from.program.operations@,
        ),
        string_views(r.operations_removed@) == keys_absent(
            kv_keys(from.program.operations.kv()),
            to.program.operations@,
        ),
        string_views(r.values_added@) == keys_absent(kv_keys(to.program.values.kv()), from.program.values@),
        string_views(r.values_removed@) == keys_absent(kv_keys(from.program.values.kv()), to.program.values@),
        string_views(r.holes_added@) == keys_absent(kv_keys(to.program.holes.kv()), from.program.holes@),
        string_views(r.holes_removed@) == keys_absent(kv_keys(from.program.holes.kv()), to.program.holes@),
        forall|k: Seq<char>|
            #[trigger] r.outputs_changed@.contains_key(k) <==> ((from.program.outputs@.contains_key(k)
                || to.program.outputs@.contains_key(k)) && output_differs(
                from.program.outputs@,
                to.program.outputs@,
                k,
            )),
        forall|k: Seq<char>|
            #[trigger] r.outputs_changed@.contains_key(k) ==> r.outputs_changed@[k] == (
                opt_get(from.program.outputs@, k),
                opt_get(to.program.outputs@, k),
            ),
        r.frozen_changed == (from.program.frozen != to.program.frozen),
{
    let before_outputs = &from.program.outputs;
    let after_outputs = &to.program.outputs;
    let mut changed: IdMap<(Option<ValueId>, Option<ValueId>)> = IdMap::new();
    let n = before_outputs.len();
    let mut i: usize = 0;
    while i < n
        invariant
            n == before_outputs.kv().len(),
            sorted_kv(before_outputs.kv()),
            i <= n,
            forall|k: Seq<char>|
                #[trigger] changed@.contains_key(k) <==> ((exists|j: int|
                    0 <= j < i && #[trigger] before_outputs.kv()[j].0 == k) && output_differs(
                    before_outputs@,
                    after_outputs@,
                    k,
                )),
            forall|k: Seq<char>|
                #[trigger] changed@.contains_key(k) ==> changed@[k] == (
                    opt_get(before_outputs@, k),
                    opt_get(after_outputs@, k),
                ),
        decreases n - i,
    {
        let (name, _) = before_outputs.entry_at(i);
        let before = get_cloned(before_outputs, name.as_str());
        let after = get_cloned(after_outputs, name.as_str());
        if !opt_string_eq(&before, &after) {
            changed.insert(name.clone(), (before, after));
        }
        proof {
            assert forall|k: Seq<char>| #[trigger] changed@.contains_key(k) <==> ((exists|j: int|
                0 <= j < i + 1 && #[trigger] before_outputs.kv()[j].0 == k) && output_differs(
                before_outputs@,
                after_outputs@,
                k,
            )) by {
                if k == name@ {
                    assert(before_outputs.kv()[i as int].0 == k);
                } else {
                    if exists|j: int| 0 <= j < i + 1 && #[trigger] before_outputs.kv()[j].0 == k {
                        let j = choose|j: int| 0 <= j < i + 1 && #[trigger] before_outputs.kv()[j].0 == k;
                        assert(j != i);
                    }
                }
            }
        }
        i = i + 1;
    }
    proof {
        assert forall|k: Seq<char>| #[trigger] before_outputs@.contains_key(k) implies (exists|j: int|
            0 <= j < n && #[trigger] before_outputs.kv()[j].0 == k) by {
        }
    }
    let m = after_outputs.len();
    let mut t: usize = 0;
    while t < m
        invariant
            m == after_outputs.kv().len(),
            n == before_outputs.kv().len(),
            sorted_kv(after_outputs.kv()),
            t <= m,
            forall|k: Seq<char>| #[trigger] before_outputs@.contains_key(k) <==> (exists|j: int|
                0 <= j < n && #[trigger] before_outputs.kv()[j].0 == k),
            forall|k: Seq<char>|
                #[trigger] changed@.contains_key(k) <==> ((before_outputs@.contains_key(k) || (exists|j: int|
                    0 <= j < t && #[trigger] after_outputs.kv()[j].0 == k)) && output_differs(
                    before_outputs@,
                    after_outputs@,
                    k,
                )),
            forall|k: Seq<char>|
                #[trigger] changed@.contains_key(k) ==> changed@[k] == (
                    opt_get(before_outputs@, k),
                    opt_get(after_outputs@, k),
                ),
        decreases m - t,
    {
        let (name, _) = after_outputs.entry_at(t);
        if !before_outputs.contains_key(name.as_str()) {
            let after = get_cloned(after_outputs, name.as_str());
            proof {
                crate::idmap::lemma_kv_at(after_outputs.kv(), t as int);
            }
            changed.insert(name.clone(), (None, after));
        }
        proof {
            assert forall|k: Seq<char>| #[trigger] changed@.contains_key(k) <==> ((before_outputs@.contains_key(k)
                || (exists|j: int| 0 <= j < t + 1 && #[trigger] after_outputs.kv()[j].0 == k)) && output_differs(
                before_outputs@,
                after_outputs@,
                k,
            )) by {
                if k == name@ {
                    assert(after_outputs.kv()[t as int].0 == k);
                    crate::idmap::lemma_kv_at(after_outputs.kv(), t as int);
                } else {
                    if exists|j: int| 0 <= j < t + 1 && #[trigger] after_outputs.kv()[j].0 == k {
                        let j = choose|j: int| 0 <= j < t + 1 && #[trigger] after_outputs.kv()[j].0 == k;
                        assert(j != t);
                    }
                }
            }
        }
        t = t + 1;
    }
    proof {
        assert forall|k: Seq<char>| #[trigger] after_outputs@.contains_key(k) implies (exists|j: int|
            0 <= j < m && #[trigger] after_outputs.kv()[j].0 == k) by {
        }
    }
    RevisionDiff {
        from: from.id.clone(),
        to: to.id.clone(),
        operations_added: added(&from.program.operations, &to.program.operations),
        operations_removed: added(&to.program.operations, &from.program.operations),
        values_added: added(&from.program.values, &to.program.values),
        values_removed: added(&to.program.values, &from.program.values),
        holes_added: added(&from.program.holes, &to.program.holes),
        holes_removed: added(&to.program.holes, &from.program.holes),
        outputs_changed: changed,
        frozen_changed: from.program.frozen != to.program.frozen,
    }
}

proof fn lemma_keys_present<V>(kv: Seq<(Seq<char>, V)>)
    ensures
        keys_absent(kv_keys(kv), kv_map(kv)) == Seq::<Seq<char>>::empty(),
    decreases kv.len(),
{
    if kv.len() > 0 {
        let keys = kv_keys(kv);
        assert(keys.drop_last() =~= kv_keys(kv.drop_last()));
        assert(kv_has(kv, keys.last())) by {
            assert(kv[kv.len() - 1].0 == keys.last());
        }
        lemma_keys_present(kv.drop_last());
        let prefix = kv.drop_last();
        assert forall|k: Seq<char>| #[trigger] kv_map(prefix).contains_key(k) implies kv_map(kv).contains_key(k) by {
            let i = choose|i: int| 0 <= i < prefix.len() && #[trigger] prefix[i].0 == k;
            assert(kv[i].0 == k);
        }
        lemma_absent_subset(kv_keys(prefix), kv_map(prefix), kv_map(kv));
    }
}

proof fn lemma_absent_subset<V>(keys: Seq<Seq<char>>, small: Map<Seq<char>, V>, big: Map<Seq<char>, V>)
    requires
        keys_absent(keys, small) == Seq::<Seq<char>>::empty(),
        small.dom().subset_of(big.dom()),
    ensures
        keys_absent(keys, big) == Seq::<Seq<char>>::empty(),
    decreases keys.len(),
{
    if keys.len() > 0 {
        if !small.contains_key(keys.last()) {
            assert(keys_absent(keys, small).len() > 0);
        }
        lemma_absent_subset(keys.drop_last(), small, big);
    }
}

/// A diff of a revision with a revision of the same program is empty: no
/// operation, value or hole is added or removed, and no output changes.
pub proof fn law_diff_of_identical_programs_is_empty(p: Program)
    ensures
        keys_absent(kv_keys(p.operations.kv()), p.operations@) == Seq::<Seq<char>>::empty(),
        keys_absent(kv_keys(p.values.kv()), p.values@) == Seq::<Seq<char>>::empty(),
        keys_absent(kv_keys(p.holes.kv()), p.holes@) == Seq::<Seq<char>>::empty(),
        forall|k: Seq<char>| !output_differs(p.outputs@, p.outputs@, k),
{
    lemma_keys_present(p.operations.kv());
    lemma_keys_present(p.values.kv());
    lemma_keys_present(p.holes.kv());
}

} // verus!
