//! Reads and full checks of persistent BackendIR plans: revision lookup,
//! summary queries and the structural, certificate and exact-hash check.

use crate::artifact_check::kernel_order_resolves;
use crate::backend::{BackendCheckReport, BackendHash, BackendPlan, BackendQuery, BackendRevision, BackendStore};
use crate::backend_check::{backend_verdict, id_views, verify_backend_program};
use crate::backend_ir::{BackendKernel, BackendObligation, BackendProgram, BackendStatus, BACKEND_SEMANTICS_VERSION, BACKEND_VALIDATOR_VERSION};
use crate::diagnostics::{AgentError, AgentResult, ErrorCode};
use crate::digest::{digest_text, domain_digest};
use crate::idmap::lemma_kv_at;
use crate::schedule::ScheduleHash;
use crate::target::TargetHash;
use crate::text::str_eq;
use vstd::prelude::*;
use vstd::utf8::encode_utf8;

verus! {

/// Whether `s` is strictly increasing.
pub open spec fn strictly_increasing(s: Seq<u32>) -> bool {
    forall|i: int, j: int| 0 <= i < j < s.len() ==> s[i] < s[j]
}

/// Whether `s` lists the values of `v` once each, in increasing order.
pub open spec fn distinct_sorted_of(s: Seq<u32>, v: Seq<u32>) -> bool {
    strictly_increasing(s) && forall|x: u32| s.contains(x) <==> v.contains(x)
}

/// The vector widths of the kernels, in kernel order.
pub open spec fn kernel_widths(p: BackendProgram) -> Seq<u32> {
    p.kernel_order@.map_values(|k: String| p.kernels@[k@].vector_width)
}

/// The unroll factors of the kernels, in kernel order.
pub open spec fn kernel_unrolls(p: BackendProgram) -> Seq<u32> {
    p.kernel_order@.map_values(|k: String| p.kernels@[k@].unroll_factor)
}

/// The storage bindings of the first `n` kernel entries, counted.
pub open spec fn binding_total(kv: Seq<(Seq<char>, BackendKernel)>, n: nat) -> int
    decreases n,
{
    if n == 0 {
        0
    } else {
        binding_total(kv, (n - 1) as nat) + kv[n - 1].1.bindings@.len()
    }
}

/// Whether the storage bindings of all kernels can be counted in `usize`.
pub open spec fn bindings_countable(p: BackendProgram) -> bool {
    binding_total(p.kernels.kv(), p.kernels.kv().len()) <= usize::MAX
}

/// The obligations among the first `n` that are not proved, counted.
pub open spec fn open_count(obs: Seq<BackendObligation>, n: nat) -> int
    decreases n,
{
    if n == 0 {
        0
    } else {
        open_count(obs, (n - 1) as nat) + if obs[n - 1].status@ != "proved"@ { 1int } else { 0int }
    }
}

/// Whether `q` summarises revision `rev` (identity `rev_id`) of plan `plan`
/// (identity `plan_id`).
pub open spec fn backend_query_matches(
    q: BackendQuery,
    plan_id: Seq<char>,
    rev_id: Seq<char>,
    plan: BackendPlan,
    rev: BackendRevision,
) -> bool {
    &&& q.backend_plan@ == plan_id
    &&& q.backend_revision@ == rev_id
    &&& q.backend_hash.0@ == rev.backend_hash.0@
    &&& q.schedule_hash.0@ == plan.anchor.schedule_hash.0@
    &&& q.target_hash.0@ == plan.anchor.target_hash.0@
    &&& q.status == rev.status
    &&& q.kernel_count == rev.program.kernels.spec_len()
    &&& q.dispatch_count == rev.program.dispatches@.len()
    &&& q.binding_count == binding_total(rev.program.kernels.kv(), rev.program.kernels.kv().len())
    &&& distinct_sorted_of(q.vector_widths@, kernel_widths(rev.program))
    &&& distinct_sorted_of(q.unroll_factors@, kernel_unrolls(rev.program))
    &&& q.guarded == (rev.program.guard is Some)
    &&& q.open_obligations == open_count(rev.obligations@, rev.obligations@.len())
}

proof fn lemma_contains_push(s: Seq<u32>, a: u32, y: u32)
    ensures
        s.push(a).contains(y) <==> (s.contains(y) || y == a),
{
    if s.contains(y) {
        let j = choose|j: int| 0 <= j < s.len() && s[j] == y;
        assert(s.push(a)[j] == y);
    }
    if y == a {
        assert(s.push(a)[s.len() as int] == y);
    }
    if s.push(a).contains(y) {
        let j = choose|j: int| 0 <= j < s.len() + 1 && s.push(a)[j] == y;
        if j < s.len() {
            assert(s[j] == y);
        }
    }
}

/// Adds `x` to a strictly increasing vector, keeping it strictly increasing.
fn insert_sorted(v: &mut Vec<u32>, x: u32)
    requires
        strictly_increasing(old(v)@),
    ensures
        strictly_increasing(final(v)@),
        forall|y: u32| final(v)@.contains(y) <==> (old(v)@.contains(y) || y == x),
{
    let ghost s = v@;
    let mut i: usize = 0;
    while i < v.len() && v[i] < x
        invariant
            v@ == s,
            i <= s.len(),
            forall|j: int| 0 <= j < i ==> s[j] < x,
        decreases v.len() - i,
    {
        i = i + 1;
    }
    if i < v.len() && v[i] == x {
        proof {
            assert forall|y: u32| v@.contains(y) <==> (s.contains(y) || y == x) by {
                if y == x {
                    assert(s[i as int] == y);
                }
            }
        }
        return;
    }
    v.insert(i, x);
    proof {
        s.insert_ensures(i as int, x);
        let t = s.insert(i as int, x);
        assert(t[i as int] == x);
        assert forall|a: int, b: int| 0 <= a < b < t.len() implies t[a] < t[b] by {
            if b <= i {
            } else if a < i {
                assert(t[b] == s[b - 1]);
            } else if a == i {
                assert(t[b] == s[b - 1]);
            } else {
                assert(t[a] == s[a - 1]);
                assert(t[b] == s[b - 1]);
            }
        }
        assert forall|y: u32| t.contains(y) <==> (s.contains(y) || y == x) by {
            if s.contains(y) {
                let j = choose|j: int| 0 <= j < s.len() && s[j] == y;
                if j < i {
                    assert(t[j] == y);
                } else {
                    assert(t[j + 1] == y);
                }
            }
            if t.contains(y) && y != x {
                let j = choose|j: int| 0 <= j < t.len() && t[j] == y;
                if j < i {
                    assert(s[j] == y);
                } else {
                    assert(s[j - 1] == y);
                }
            }
        }
    }
}

fn sorted_values(p: &BackendProgram, unroll: bool) -> (r: Vec<u32>)
    requires
        kernel_order_resolves(*p),
    ensures
        distinct_sorted_of(r@, if unroll { kernel_unrolls(*p) } else { kernel_widths(*p) }),
{
    let ghost all = if unroll { kernel_unrolls(*p) } else { kernel_widths(*p) };
    let mut out: Vec<u32> = Vec::new();
    let mut i: usize = 0;
    while i < p.kernel_order.len()
        invariant
            kernel_order_resolves(*p),
            all == (if unroll { kernel_unrolls(*p) } else { kernel_widths(*p) }),
            all.len() == p.kernel_order@.len(),
            i <= p.kernel_order@.len(),
            strictly_increasing(out@),
            forall|y: u32| out@.contains(y) <==> all.take(i as int).contains(y),
        decreases p.kernel_order.len() - i,
    {
        let k = match p.kernels.get(p.kernel_order[i].as_str()) {
            Some(k) => k,
            None => {
                return out;
            },
        };
        let x = if unroll { k.unroll_factor } else { k.vector_width };
        insert_sorted(&mut out, x);
        proof {
            assert(all[i as int] == x);
            assert(all.take(i + 1) =~= all.take(i as int).push(x));
            assert forall|y: u32| out@.contains(y) <==> all.take(i + 1).contains(y) by {
                lemma_contains_push(all.take(i as int), x, y);
            }
        }
        i = i + 1;
    }
    proof {
        assert(all.take(all.len() as int) =~= all);
    }
    out
}

proof fn lemma_binding_total_monotone(kv: Seq<(Seq<char>, BackendKernel)>, a: nat, b: nat)
    requires
        a <= b,
    ensures
        binding_total(kv, a) <= binding_total(kv, b),
    decreases b - a,
{
    if a < b {
        lemma_binding_total_monotone(kv, a, (b - 1) as nat);
    }
}

fn count_bindings(p: &BackendProgram) -> (r: usize)
    requires
        bindings_countable(*p),
    ensures
        r == binding_total(p.kernels.kv(), p.kernels.kv().len()),
{
    let n = p.kernels.len();
    let mut total: usize = 0;
    let mut i: usize = 0;
    while i < n
        invariant
            n == p.kernels.kv().len(),
            i <= n,
            total == binding_total(p.kernels.kv(), i as nat),
            bindings_countable(*p),
        decreases n - i,
    {
        proof {
            lemma_binding_total_monotone(p.kernels.kv(), (i + 1) as nat, n as nat);
        }
        let (_, k) = p.kernels.entry_at(i);
        total = total + k.bindings.len();
        i = i + 1;
    }
    total
}

proof fn lemma_open_count_bounded(obs: Seq<BackendObligation>, n: nat)
    requires
        n <= obs.len(),
    ensures
        0 <= open_count(obs, n) <= n,
    decreases n,
{
    if n > 0 {
        lemma_open_count_bounded(obs, (n - 1) as nat);
    }
}

fn count_open(obs: &Vec<BackendObligation>) -> (r: usize)
    ensures
        r == open_count(obs@, obs@.len()),
{
    let mut count: usize = 0;
    let mut i: usize = 0;
    while i < obs.len()
        invariant
            i <= obs@.len(),
            count == open_count(obs@, i as nat),
        decreases obs.len() - i,
    {
        proof {
            lemma_open_count_bounded(obs@, i as nat);
        }
        if !str_eq(obs[i].status.as_str(), "proved") {
            count = count + 1;
        }
        i = i + 1;
    }
    count
}

/// Whether a revision's certificate establishes equivalence to the plan's
/// schedule under the current semantics and validator, with no open
/// obligation.
pub open spec fn backend_certificate_ok(plan: BackendPlan, rev: BackendRevision) -> bool {
    &&& rev.certificate.relation@ == "backend_equivalent_to_schedule"@
    &&& rev.certificate.schedule_hash.0@ == plan.anchor.schedule_hash.0@
    &&& rev.certificate.semantics_version == BACKEND_SEMANTICS_VERSION
    &&& rev.certificate.validator_version == BACKEND_VALIDATOR_VERSION
    &&& rev.certificate.backend_hash.0@ == rev.backend_hash.0@
    &&& rev.obligations@.len() == 0
}

/// The exact BackendIR hash of canonical revision bytes.
pub open spec fn spec_backend_hash(canonical: Seq<u8>) -> Seq<char> {
    domain_digest(encode_utf8("agentir.backend.wgsl.exact.v1\0"@), canonical)
}

/// Computes the exact BackendIR hash from a revision's canonical bytes
/// (plan identity, anchor, revision identity, parents, program, status,
/// certificate relation, schedule hash, coverage and conditions, evidence
/// and obligations).
pub fn backend_hash(canonical: &[u8]) -> (r: BackendHash)
    ensures
        r.0@ == spec_backend_hash(canonical@),
{
    let domain = "agentir.backend.wgsl.exact.v1\0";
    BackendHash(digest_text(domain.as_bytes(), canonical))
}

/// The outcome of fully checking revision `rev` of plan `plan` whose
/// canonical bytes are `canonical`: the first check that fails, in order.
pub open spec fn backend_check_verdict(store: BackendStore, plan: Seq<char>, rev: Seq<char>, canonical: Seq<u8>) -> Result<(), ErrorCode> {
    if !store.plans@.contains_key(plan) {
        Err(ErrorCode::BackendPlanNotFound)
    } else if !store.plans@[plan].revisions@.contains_key(rev) {
        Err(ErrorCode::BackendRevisionNotFound)
    } else {
        let p = store.plans@[plan];
        let r = p.revisions@[rev];
        match backend_verdict(r.program, id_views(r.certificate.schedule_node_coverage@)) {
            Err(c) => Err(c),
            Ok(()) => if !backend_certificate_ok(p, r) {
                Err(ErrorCode::BackendEquivalenceUnproved)
            } else if r.backend_hash.0@ != spec_backend_hash(canonical) {
                Err(ErrorCode::BackendHashMismatch)
            } else {
                Ok(())
            },
        }
    }
}

impl BackendStore {
    /// Returns one immutable backend revision.
    pub fn revision(&self, plan: &str, revision: &str) -> (r: AgentResult<&BackendRevision>)
        ensures
            match r {
                Ok(x) => self.plans@.contains_key(plan@) && self.plans@[plan@].revisions@.contains_key(revision@) && *x
                    == self.plans@[plan@].revisions@[revision@],
                Err(e) => (!self.plans@.contains_key(plan@) && e.code == ErrorCode::BackendPlanNotFound) || (
                self.plans@.contains_key(plan@) && !self.plans@[plan@].revisions@.contains_key(revision@) && e.code
                    == ErrorCode::BackendRevisionNotFound),
            },
    {
        let p = self.plan(plan)?;
        match p.revisions.get(revision) {
            Some(x) => Ok(x),
            None => Err(AgentError::new(ErrorCode::BackendRevisionNotFound, "backend revision does not exist")),
        }
    }

    /// Reads one backend summary.
    pub fn query(&self, plan: &str, revision: &str) -> (r: AgentResult<BackendQuery>)
        requires
            self.plans@.contains_key(plan@) && self.plans@[plan@].revisions@.contains_key(revision@) ==> {
                let x = self.plans@[plan@].revisions@[revision@];
                kernel_order_resolves(x.program) && bindings_countable(x.program)
            },
        ensures
            match r {
                Ok(q) => self.plans@.contains_key(plan@) && self.plans@[plan@].revisions@.contains_key(revision@)
                    && backend_query_matches(q, plan@, revision@, self.plans@[plan@], self.plans@[plan@].revisions@[revision@]),
                Err(e) => (!self.plans@.contains_key(plan@) && e.code == ErrorCode::BackendPlanNotFound) || (
                self.plans@.contains_key(plan@) && !self.plans@[plan@].revisions@.contains_key(revision@) && e.code
                    == ErrorCode::BackendRevisionNotFound),
            },
    {
        let p = self.plan(plan)?;
        let x = self.revision(plan, revision)?;
        let vector_widths = sorted_values(&x.program, false);
        let unroll_factors = sorted_values(&x.program, true);
        Ok(BackendQuery {
            backend_plan: plan.to_string(),
            backend_revision: revision.to_string(),
            backend_hash: BackendHash(x.backend_hash.0.clone()),
            schedule_hash: ScheduleHash(p.anchor.schedule_hash.0.clone()),
            target_hash: TargetHash(p.anchor.target_hash.0.clone()),
            status: x.status,
            kernel_count: x.program.kernels.len(),
            dispatch_count: x.program.dispatches.len(),
            binding_count: count_bindings(&x.program),
            vector_widths,
            unroll_factors,
            guarded: x.program.guard.is_some(),
            open_obligations: count_open(&x.obligations),
        })
    }

    /// Fully checks BackendIR structure, proof certificate and exact hash of
    /// one revision, given the revision's canonical bytes.
    pub fn check(&self, plan: &str, revision: &str, canonical: &[u8]) -> (r: AgentResult<BackendCheckReport>)
        requires
            self.plans@.contains_key(plan@) && self.plans@[plan@].revisions@.contains_key(revision@)
                ==> bindings_countable(self.plans@[plan@].revisions@[revision@].program),
        ensures
            match backend_check_verdict(*self, plan@, revision@, canonical@) {
                Ok(()) => r matches Ok(report) && backend_query_matches(
                    report.query,
                    plan@,
                    revision@,
                    self.plans@[plan@],
                    self.plans@[plan@].revisions@[revision@],
                ) && report.well_typed && report.equivalent_to_schedule && report.emittable == (
                self.plans@[plan@].revisions@[revision@].status == BackendStatus::Proved
                    || self.plans@[plan@].revisions@[revision@].status == BackendStatus::Sealed),
                Err(c) => r matches Err(e) && e.code == c,
            },
    {
        let p = self.plan(plan)?;
        let x = self.revision(plan, revision)?;
        verify_backend_program(&x.program, x.certificate.schedule_node_coverage.as_slice())?;
        let c = &x.certificate;
        let certificate_ok = str_eq(c.relation.as_str(), "backend_equivalent_to_schedule") && str_eq(
            c.schedule_hash.0.as_str(),
            p.anchor.schedule_hash.0.as_str(),
        ) && c.semantics_version == BACKEND_SEMANTICS_VERSION && c.validator_version == BACKEND_VALIDATOR_VERSION
            && str_eq(c.backend_hash.0.as_str(), x.backend_hash.0.as_str()) && x.obligations.len() == 0;
        if !certificate_ok {
            return Err(AgentError::new(ErrorCode::BackendEquivalenceUnproved, "BackendEquivalentToSchedule certificate is missing or inconsistent"));
        }
        let actual = backend_hash(canonical);
        if !str_eq(actual.0.as_str(), x.backend_hash.0.as_str()) {
            return Err(AgentError::new(ErrorCode::BackendHashMismatch, "stored backend_hash does not match exact typed BackendIR state"));
        }
        let query = self.query(plan, revision)?;
        let emittable = x.status == BackendStatus::Proved || x.status == BackendStatus::Sealed;
        Ok(BackendCheckReport { query, well_typed: true, equivalent_to_schedule: true, emittable })
    }
}

/// Whether every encoding that `canonical` may give of revision `k` of plan
/// `p` passes the full check.
pub open spec fn passes_all_encodings<F: Fn(&BackendPlan, &BackendRevision) -> Vec<u8>>(
    store: BackendStore,
    canonical: F,
    p: Seq<char>,
    k: Seq<char>,
) -> bool {
    forall|bytes: Vec<u8>| #[trigger] canonical.ensures((&store.plans@[p], &store.plans@[p].revisions@[k]), bytes)
        ==> backend_check_verdict(store, p, k, bytes@) is Ok
}

/// Whether every plan's head exists and every revision passes the full
/// check under every encoding that `canonical` may give.
pub open spec fn store_verifiable<F: Fn(&BackendPlan, &BackendRevision) -> Vec<u8>>(store: BackendStore, canonical: F) -> bool {
    forall|p: Seq<char>, k: Seq<char>|
        #![trigger store.plans@[p].revisions@.contains_key(k)]
        store.plans@.contains_key(p) ==> store.plans@[p].revisions@.contains_key(store.plans@[p].head@) && (
        store.plans@[p].revisions@.contains_key(k) ==> passes_all_encodings(store, canonical, p, k))
}

/// Whether the storage bindings of every revision can be counted in `usize`.
pub open spec fn all_bindings_countable(store: BackendStore) -> bool {
    forall|p: Seq<char>, k: Seq<char>|
        #![trigger store.plans@[p].revisions@[k]]
        store.plans@.contains_key(p) && store.plans@[p].revisions@.contains_key(k) ==> bindings_countable(
            store.plans@[p].revisions@[k].program,
        )
}

impl BackendStore {
    /// Revalidates every backend plan: each head exists, and each revision
    /// passes the full check with the canonical bytes that `canonical` gives
    /// for it (plan identity and anchor, revision).
    pub fn verify_all<F: Fn(&BackendPlan, &BackendRevision) -> Vec<u8>>(&self, canonical: F) -> (r: AgentResult<()>)
        requires
            forall|p: &BackendPlan, x: &BackendRevision| canonical.requires((p, x)),
            all_bindings_countable(*self),
        ensures
            store_verifiable(*self, canonical) ==> r is Ok,
            r is Ok ==> forall|p: Seq<char>| #[trigger] self.plans@.contains_key(p) ==> self.plans@[p].revisions@.contains_key(
                self.plans@[p].head@,
            ),
    {
        let n = self.plans.len();
        let mut i: usize = 0;
        while i < n
            invariant
                n == self.plans.kv().len(),
                i <= n,
                forall|p: &BackendPlan, x: &BackendRevision| canonical.requires((p, x)),
                all_bindings_countable(*self),
                forall|j: int| 0 <= j < i ==> (#[trigger] self.plans.kv()[j]).1.revisions@.contains_key(self.plans.kv()[j].1.head@),
            decreases n - i,
        {
            let (key, plan) = self.plans.entry_at(i);
            proof {
                lemma_kv_at(self.plans.kv(), i as int);
            }
            if !plan.revisions.contains_key(plan.head.as_str()) {
                return Err(AgentError::new(ErrorCode::BackendRevisionNotFound, "backend plan head references a missing revision"));
            }
            let m = plan.revisions.len();
            let mut j: usize = 0;
            while j < m
                invariant
                    n == self.plans.kv().len(),
                    i < n,
                    key@ == self.plans.kv()[i as int].0,
                    *plan == self.plans.kv()[i as int].1,
                    self.plans@.contains_key(key@),
                    self.plans@[key@] == *plan,
                    m == plan.revisions.kv().len(),
                    j <= m,
                    forall|p: &BackendPlan, x: &BackendRevision| canonical.requires((p, x)),
                    all_bindings_countable(*self),
                decreases m - j,
            {
                let (rkey, revision) = plan.revisions.entry_at(j);
                proof {
                    lemma_kv_at(plan.revisions.kv(), j as int);
                    assert(self.plans@[key@].revisions@[rkey@] == *revision);
                }
                let bytes = canonical(plan, revision);
                self.check(key.as_str(), rkey.as_str(), bytes.as_slice())?;
                j = j + 1;
            }
            i = i + 1;
        }
        proof {
            assert forall|p: Seq<char>| #[trigger] self.plans@.contains_key(p) implies self.plans@[p].revisions@.contains_key(
                self.plans@[p].head@,
            ) by {
                let j = choose|j: int| 0 <= j < self.plans.kv().len() && #[trigger] self.plans.kv()[j].0 == p;
                lemma_kv_at(self.plans.kv(), j);
            }
        }
        Ok(())
    }
}

} // verus!
