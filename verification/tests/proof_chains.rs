use agentir_core::candidate::{
    Candidate, CandidateAllocator, CandidateForest, CandidateHash, CandidateRevision, CandidateState,
    EquivalenceCertificate, EquivalenceObligation, EquivalenceStatus, EvidenceClass, EvidenceKind, EvidenceProvenance,
    EvidenceRecord, EvidenceResult, RelationKind,
};
use agentir_core::candidate_store::verify_proof_chain;
use agentir_core::diagnostics::ErrorCode;
use agentir_core::idmap::IdMap;
use agentir_core::impl_ir::{ImplHash, ImplProgram};
use agentir_core::semantic::SpecHash;

fn h(c: char) -> ImplHash {
    ImplHash(c.to_string().repeat(64))
}

fn empty_impl() -> ImplProgram {
    ImplProgram {
        dimensions: IdMap::new(),
        operations: IdMap::new(),
        operation_order: Vec::new(),
        values: IdMap::new(),
        parameters: IdMap::new(),
        constants: IdMap::new(),
        outputs: IdMap::new(),
        constraints: Vec::new(),
        numeric_contract: serde_json::Value::Null,
    }
}

fn evidence(id: &str, kind: EvidenceKind, input: Option<ImplHash>, output: ImplHash) -> EvidenceRecord {
    EvidenceRecord {
        id: id.to_string(),
        class: EvidenceClass::Correctness,
        kind,
        spec_hash: SpecHash("s".repeat(64)),
        candidate: "c1".to_string(),
        candidate_revision: "cr1".to_string(),
        input_impl_hash: input,
        output_impl_hash: output,
        method: "compiler".to_string(),
        parameters: IdMap::new(),
        result: EvidenceResult::Passed,
        counterexample: None,
        provenance: EvidenceProvenance {
            compiler_version: "0.1.0".to_string(),
            candidate_semantics_version: 1,
            impl_semantics_version: 1,
        },
    }
}

fn certificate(rule: &str, before: Option<ImplHash>, after: ImplHash, evidence: &str) -> EquivalenceCertificate {
    EquivalenceCertificate {
        rule: rule.to_string(),
        before_impl_hash: before,
        after_impl_hash: after,
        targets: Vec::new(),
        side_conditions: Vec::new(),
        impl_semantics_version: 1,
        evidence: evidence.to_string(),
    }
}

/// A forest whose candidate `c1` reached hash `b` from the identity hash `a`
/// by one constant fold.
fn setup() -> (CandidateForest, Candidate, CandidateRevision) {
    let mut ev = IdMap::new();
    ev.insert("ev1".to_string(), evidence("ev1", EvidenceKind::IdentityLowering, None, h('a')));
    ev.insert("ev2".to_string(), evidence("ev2", EvidenceKind::KnownRewriteCertificate, Some(h('a')), h('b')));
    let revision = CandidateRevision {
        id: "cr2".to_string(),
        parents: vec!["cr1".to_string()],
        impl_program: empty_impl(),
        impl_hash: h('b'),
        candidate_hash: CandidateHash("c".repeat(64)),
        state: CandidateState::Equivalent,
        equivalence: EquivalenceObligation {
            id: "co2".to_string(),
            relation: RelationKind::EquivalentToSpec,
            spec_hash: SpecHash("s".repeat(64)),
            candidate: "c1".to_string(),
            candidate_revision: "cr2".to_string(),
            impl_hash: h('b'),
            status: EquivalenceStatus::Proved,
        },
        proof_chain: vec![
            certificate("identity_lowering", None, h('a'), "ev1"),
            certificate("fold_defined_scalar_constants", Some(h('a')), h('b'), "ev2"),
        ],
        evidence: vec!["ev1".to_string(), "ev2".to_string()],
    };
    let candidate = Candidate {
        id: "c1".to_string(),
        spec_revision: "r1".to_string(),
        spec_hash: SpecHash("s".repeat(64)),
        root_revision: "cr1".to_string(),
        head: "cr2".to_string(),
        revisions: IdMap::new(),
        parent_candidate: None,
        forked_from_revision: None,
    };
    let forest = CandidateForest {
        candidates: IdMap::new(),
        evidence: ev,
        allocator: CandidateAllocator::new(),
        events: Vec::new(),
    };
    (forest, candidate, revision)
}

fn code(f: &CandidateForest, c: &Candidate, r: &CandidateRevision) -> Option<ErrorCode> {
    verify_proof_chain(f, c, r, &h('a')).err().map(|e| e.code)
}

#[test]
fn an_unbroken_chain_from_the_identity_lowering_verifies() {
    let (f, c, r) = setup();
    assert_eq!(code(&f, &c, &r), None);
}

#[test]
fn the_chain_must_start_at_the_identity_lowering() {
    let (f, c, mut r) = setup();
    r.proof_chain.clear();
    assert_eq!(code(&f, &c, &r), Some(ErrorCode::EquivalenceNotProved));
    let (f, c, r) = setup();
    assert_eq!(verify_proof_chain(&f, &c, &r, &h('z')).err().map(|e| e.code), Some(ErrorCode::EquivalenceNotProved));
}

#[test]
fn the_chain_must_be_continuous_and_reach_the_revision() {
    let (mut f, c, mut r) = setup();
    f.evidence.insert("ev2".to_string(), evidence("ev2", EvidenceKind::KnownRewriteCertificate, Some(h('x')), h('b')));
    r.proof_chain[1].before_impl_hash = Some(h('x'));
    assert_eq!(code(&f, &c, &r), Some(ErrorCode::EquivalenceNotProved));
    let (f, c, mut r) = setup();
    r.impl_hash = h('d');
    assert_eq!(code(&f, &c, &r), Some(ErrorCode::EquivalenceNotProved));
    let (f, c, mut r) = setup();
    r.equivalence.status = EquivalenceStatus::Open;
    assert_eq!(code(&f, &c, &r), Some(ErrorCode::EquivalenceNotProved));
}

#[test]
fn certificates_need_matching_passed_evidence_and_known_rules() {
    let (mut f, c, r) = setup();
    f.evidence.remove("ev2");
    assert_eq!(code(&f, &c, &r), Some(ErrorCode::EvidenceInvalid));
    let (mut f, c, r) = setup();
    let mut failed = evidence("ev2", EvidenceKind::KnownRewriteCertificate, Some(h('a')), h('b'));
    failed.result = EvidenceResult::Failed;
    f.evidence.insert("ev2".to_string(), failed);
    assert_eq!(code(&f, &c, &r), Some(ErrorCode::EvidenceInvalid));
    let (f, c, mut r) = setup();
    r.proof_chain[1].rule = "invent_a_rule".to_string();
    assert_eq!(code(&f, &c, &r), Some(ErrorCode::EvidenceInvalid));
    let (f, c, mut r) = setup();
    r.proof_chain[1].impl_semantics_version = 2;
    assert_eq!(code(&f, &c, &r), Some(ErrorCode::EvidenceInvalid));
}

#[test]
fn candidate_and_revision_lookups_report_what_is_missing() {
    let (mut f, mut c, r) = setup();
    c.revisions.insert("cr2".to_string(), r);
    f.candidates.insert("c1".to_string(), c);
    assert!(f.candidate("c1").is_ok());
    assert_eq!(f.candidate("c9").err().map(|e| e.code), Some(ErrorCode::CandidateNotFound));
    assert_eq!(f.revision("c1", "cr2").ok().map(|x| x.id.clone()), Some("cr2".to_string()));
    assert_eq!(f.revision("c1", "cr9").err().map(|e| e.code), Some(ErrorCode::CandidateRevisionNotFound));
    assert_eq!(f.revision("c9", "cr2").err().map(|e| e.code), Some(ErrorCode::CandidateNotFound));
}
