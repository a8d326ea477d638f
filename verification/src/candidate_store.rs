//! Reads of the candidate forest and the check of a candidate revision's
//! equivalence proof chain against EvidenceIR.

use crate::candidate::{
    known_rewrite_rule, known_rule, Candidate, CandidateForest, CandidateRevision, EquivalenceCertificate,
    EquivalenceStatus, EvidenceClass, EvidenceKind, EvidenceResult, RelationKind,
};
use crate::diagnostics::{AgentError, AgentResult, ErrorCode};
use crate::impl_ir::{ImplHash, IMPL_SEMANTICS_VERSION};
use crate::text::str_eq;
use vstd::prelude::*;

verus! {

/// The text of an optional implementation hash.
pub open spec fn opt_hash(h: Option<ImplHash>) -> Option<Seq<char>> {
    match h {
        Some(x) => Some(x.0@),
        None => None,
    }
}

/// The implementation hash that the first `n` certificates of a chain reach.
pub open spec fn chain_current(chain: Seq<EquivalenceCertificate>, n: nat) -> Option<Seq<char>> {
    if n == 0 {
        None
    } else {
        Some(chain[n - 1].after_impl_hash.0@)
    }
}

/// Whether an evidence record is passed correctness evidence for candidate
/// `c` of exactly the step that certificate `cert` records.
pub open spec fn evidence_matches(f: CandidateForest, c: Candidate, cert: EquivalenceCertificate) -> bool {
    let e = f.evidence@[cert.evidence@];
    &&& e.class == EvidenceClass::Correctness
    &&& e.result == EvidenceResult::Passed
    &&& e.spec_hash.0@ == c.spec_hash.0@
    &&& e.output_impl_hash.0@ == cert.after_impl_hash.0@
    &&& opt_hash(e.input_impl_hash) == opt_hash(cert.before_impl_hash)
}

/// The defect of certificate `i` of a chain whose earlier certificates
/// reached `current`, where `identity` is the hash of the exact identity
/// lowering of the candidate's SpecIR.
pub open spec fn certificate_failure(
    f: CandidateForest,
    c: Candidate,
    cert: EquivalenceCertificate,
    i: int,
    current: Option<Seq<char>>,
    identity: Seq<char>,
) -> Option<ErrorCode> {
    if !f.evidence@.contains_key(cert.evidence@) || !evidence_matches(f, c, cert) {
        Some(ErrorCode::EvidenceInvalid)
    } else if i == 0 && !(cert.rule@ == "identity_lowering"@ && cert.before_impl_hash is None && cert.after_impl_hash.0@
        == identity && f.evidence@[cert.evidence@].kind == EvidenceKind::IdentityLowering) {
        Some(ErrorCode::EquivalenceNotProved)
    } else if i > 0 && opt_hash(cert.before_impl_hash) != current {
        Some(ErrorCode::EquivalenceNotProved)
    } else if cert.impl_semantics_version != IMPL_SEMANTICS_VERSION {
        Some(ErrorCode::EvidenceInvalid)
    } else if i > 0 && known_rule(cert.rule@) is None {
        Some(ErrorCode::EvidenceInvalid)
    } else {
        None
    }
}

/// The first defect among the first `n` certificates of a chain.
pub open spec fn chain_failure(
    f: CandidateForest,
    c: Candidate,
    chain: Seq<EquivalenceCertificate>,
    n: nat,
    identity: Seq<char>,
) -> Option<ErrorCode>
    decreases n,
{
    if n == 0 {
        None
    } else {
        match chain_failure(f, c, chain, (n - 1) as nat, identity) {
            Some(x) => Some(x),
            None => certificate_failure(f, c, chain[n - 1], n - 1, chain_current(chain, (n - 1) as nat), identity),
        }
    }
}

proof fn lemma_chain_failure_sticks(
    f: CandidateForest,
    c: Candidate,
    chain: Seq<EquivalenceCertificate>,
    m: nat,
    n: nat,
    identity: Seq<char>,
)
    requires
        m <= n,
        chain_failure(f, c, chain, m, identity) is Some,
    ensures
        chain_failure(f, c, chain, n, identity) == chain_failure(f, c, chain, m, identity),
    decreases n - m,
{
    if m < n {
        lemma_chain_failure_sticks(f, c, chain, m, (n - 1) as nat, identity);
    }
}

/// Whether the revision's equivalence obligation is the proved exact
/// relation of its own implementation to the candidate's SpecIR.
pub open spec fn equivalence_closed(c: Candidate, r: CandidateRevision) -> bool {
    &&& r.equivalence.impl_hash.0@ == r.impl_hash.0@
    &&& r.equivalence.spec_hash.0@ == c.spec_hash.0@
    &&& r.equivalence.candidate@ == c.id@
    &&& r.equivalence.candidate_revision@ == r.id@
    &&& r.equivalence.relation == RelationKind::EquivalentToSpec
    &&& r.equivalence.status == EquivalenceStatus::Proved
}

/// The outcome of checking the proof chain of revision `r` of candidate `c`.
pub open spec fn proof_chain_outcome(f: CandidateForest, c: Candidate, r: CandidateRevision, identity: Seq<char>) -> Result<(), ErrorCode> {
    let chain = r.proof_chain@;
    if chain.len() == 0 {
        Err(ErrorCode::EquivalenceNotProved)
    } else {
        match chain_failure(f, c, chain, chain.len(), identity) {
            Some(x) => Err(x),
            None => if chain_current(chain, chain.len()) == Some(r.impl_hash.0@) && equivalence_closed(c, r) {
                Ok(())
            } else {
                Err(ErrorCode::EquivalenceNotProved)
            },
        }
    }
}

fn opt_hash_eq(a: &Option<ImplHash>, b: &Option<ImplHash>) -> (r: bool)
    ensures
        r == (opt_hash(*a) == opt_hash(*b)),
{
    match a {
        Some(x) => match b {
            Some(y) => str_eq(x.0.as_str(), y.0.as_str()),
            None => false,
        },
        None => b.is_none(),
    }
}

fn check_certificate(
    forest: &CandidateForest,
    candidate: &Candidate,
    cert: &EquivalenceCertificate,
    i: usize,
    current: &Option<ImplHash>,
    identity_hash: &ImplHash,
) -> (r: Option<ErrorCode>)
    ensures
        r == certificate_failure(*forest, *candidate, *cert, i as int, opt_hash(*current), identity_hash.0@),
{
    let e = match forest.evidence.get(cert.evidence.as_str()) {
        Some(e) => e,
        None => {
            return Some(ErrorCode::EvidenceInvalid);
        },
    };
    if !(e.class == EvidenceClass::Correctness && e.result == EvidenceResult::Passed && str_eq(
        e.spec_hash.0.as_str(),
        candidate.spec_hash.0.as_str(),
    ) && str_eq(e.output_impl_hash.0.as_str(), cert.after_impl_hash.0.as_str()) && opt_hash_eq(
        &e.input_impl_hash,
        &cert.before_impl_hash,
    )) {
        return Some(ErrorCode::EvidenceInvalid);
    }
    if i == 0 {
        if !(str_eq(cert.rule.as_str(), "identity_lowering") && cert.before_impl_hash.is_none() && str_eq(
            cert.after_impl_hash.0.as_str(),
            identity_hash.0.as_str(),
        ) && e.kind == EvidenceKind::IdentityLowering) {
            return Some(ErrorCode::EquivalenceNotProved);
        }
    } else if !opt_hash_eq(&cert.before_impl_hash, current) {
        return Some(ErrorCode::EquivalenceNotProved);
    }
    if cert.impl_semantics_version != IMPL_SEMANTICS_VERSION {
        return Some(ErrorCode::EvidenceInvalid);
    }
    if i > 0 && known_rewrite_rule(cert.rule.as_str()).is_none() {
        return Some(ErrorCode::EvidenceInvalid);
    }
    None
}

/// Checks that revision `revision` of `candidate` carries an unbroken chain
/// of compiler-owned certificates from the exact identity lowering, whose
/// implementation hash is `identity_hash`, to its own implementation, each
/// backed by passed correctness evidence in the forest, and that its
/// equivalence obligation is closed.
pub fn verify_proof_chain(
    forest: &CandidateForest,
    candidate: &Candidate,
    revision: &CandidateRevision,
    identity_hash: &ImplHash,
) -> (r: AgentResult<()>)
    ensures
        match proof_chain_outcome(*forest, *candidate, *revision, identity_hash.0@) {
            Ok(()) => r is Ok,
            Err(c) => r matches Err(e) && e.code == c,
        },
{
    let chain = &revision.proof_chain;
    if chain.len() == 0 {
        return Err(AgentError::new(ErrorCode::EquivalenceNotProved, "candidate equivalence proof chain is empty"));
    }
    let mut current: Option<ImplHash> = None;
    let mut i: usize = 0;
    while i < chain.len()
        invariant
            chain == &revision.proof_chain,
            i <= chain@.len(),
            chain_failure(*forest, *candidate, chain@, i as nat, identity_hash.0@) is None,
            opt_hash(current) == chain_current(chain@, i as nat),
        decreases chain.len() - i,
    {
        match check_certificate(forest, candidate, &chain[i], i, &current, identity_hash) {
            Some(code) => {
                proof {
                    assert(chain_failure(*forest, *candidate, chain@, (i + 1) as nat, identity_hash.0@) == Some(code));
                    lemma_chain_failure_sticks(*forest, *candidate, chain@, (i + 1) as nat, chain@.len(), identity_hash.0@);
                }
                return Err(AgentError::new(code, "proof chain certificate is inconsistent"));
            },
            None => {},
        }
        current = Some(ImplHash(chain[i].after_impl_hash.0.clone()));
        i = i + 1;
    }
    let reaches = match &current {
        Some(h) => str_eq(h.0.as_str(), revision.impl_hash.0.as_str()),
        None => false,
    };
    let q = &revision.equivalence;
    if !(reaches && str_eq(q.impl_hash.0.as_str(), revision.impl_hash.0.as_str()) && str_eq(
        q.spec_hash.0.as_str(),
        candidate.spec_hash.0.as_str(),
    ) && str_eq(q.candidate.as_str(), candidate.id.as_str()) && str_eq(
        q.candidate_revision.as_str(),
        revision.id.as_str(),
    ) && q.relation == RelationKind::EquivalentToSpec && q.status == EquivalenceStatus::Proved) {
        return Err(AgentError::new(ErrorCode::EquivalenceNotProved, "proof chain does not establish the current exact candidate relation"));
    }
    Ok(())
}

impl CandidateForest {
    /// Returns one candidate branch.
    pub fn candidate(&self, id: &str) -> (r: AgentResult<&Candidate>)
        ensures
            match r {
                Ok(c) => self.candidates@.contains_key(id@) && *c == self.candidates@[id@],
                Err(e) => !self.candidates@.contains_key(id@) && e.code == ErrorCode::CandidateNotFound,
            },
    {
        match self.candidates.get(id) {
            Some(c) => Ok(c),
            None => Err(AgentError::new(ErrorCode::CandidateNotFound, "candidate does not exist")),
        }
    }

    /// Returns an immutable candidate revision.
    pub fn revision(&self, candidate: &str, revision: &str) -> (r: AgentResult<&CandidateRevision>)
        ensures
            match r {
                Ok(x) => self.candidates@.contains_key(candidate@) && self.candidates@[candidate@].revisions@.contains_key(
                    revision@,
                ) && *x == self.candidates@[candidate@].revisions@[revision@],
                Err(e) => (!self.candidates@.contains_key(candidate@) && e.code == ErrorCode::CandidateNotFound) || (
                self.candidates@.contains_key(candidate@) && !self.candidates@[candidate@].revisions@.contains_key(
                    revision@,
                ) && e.code == ErrorCode::CandidateRevisionNotFound),
            },
    {
        let c = self.candidate(candidate)?;
        match c.revisions.get(revision) {
            Some(x) => Ok(x),
            None => Err(AgentError::new(ErrorCode::CandidateRevisionNotFound, "candidate revision does not exist")),
        }
    }
}

} // verus!
