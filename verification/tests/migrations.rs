use agentir_core::candidate::{
    CandidateEvent, CandidateHash, CandidateState, EquivalenceStatus, EvidenceClass, EvidenceKind, EvidenceProvenance,
    EvidenceResult, RelationKind,
};
use agentir_core::idmap::IdMap;
use agentir_core::impl_ir::{ImplHash, ImplProgram};
use agentir_core::persistence::{
    migrate_candidate_event, migrate_candidate_forest_v1, migrate_candidate_state, migrate_equivalence_status,
    migrate_evidence_kind, LegacyCandidateAllocatorV1, LegacyCandidateEventV1, LegacyCandidateForestV1,
    LegacyCandidateRevisionV1, LegacyCandidateStateV1, LegacyCandidateV1, LegacyEquivalenceObligationV1,
    LegacyEquivalenceStatusV1, LegacyEvidenceKindV1, LegacyEvidenceRecordV1, LegacyVersionedCandidateEventV1,
};
use agentir_core::semantic::SpecHash;

fn empty_impl() -> ImplProgram {
    ImplProgram {
        dimensions: IdMap::new(),
        operations: IdMap::new(),
        operation_order: Vec::new(),
        values: IdMap::new(),
        parameters: IdMap::new(),
        constants: IdMap::new(),
        outputs: IdMap::new(),
        constraints: Vec::new(),
        numeric_contract: serde_json::Value::Null,
    }
}

fn legacy_revision(id: &str, state: LegacyCandidateStateV1, status: LegacyEquivalenceStatusV1) -> LegacyCandidateRevisionV1 {
    LegacyCandidateRevisionV1 {
        id: id.to_string(),
        parents: Vec::new(),
        impl_program: empty_impl(),
        impl_hash: ImplHash(format!("impl-{id}")),
        candidate_hash: CandidateHash::new(format!("cand-{id}")),
        state,
        equivalence: LegacyEquivalenceObligationV1 {
            id: format!("co-{id}"),
            relation: RelationKind::EquivalentToSpec,
            spec_hash: SpecHash("spec".to_string()),
            candidate: "c1".to_string(),
            candidate_revision: id.to_string(),
            impl_hash: ImplHash(format!("impl-{id}")),
            status,
        },
        proof_chain: Vec::new(),
        evidence: vec!["ev1".to_string()],
    }
}

fn legacy_record(id: &str, kind: LegacyEvidenceKindV1) -> LegacyEvidenceRecordV1 {
    LegacyEvidenceRecordV1 {
        id: id.to_string(),
        class: EvidenceClass::Correctness,
        kind,
        spec_hash: SpecHash("spec".to_string()),
        candidate: "c1".to_string(),
        candidate_revision: "cr1".to_string(),
        input_impl_hash: None,
        output_impl_hash: ImplHash("impl-cr1".to_string()),
        method: "identity_lower".to_string(),
        parameters: IdMap::new(),
        result: EvidenceResult::Passed,
        counterexample: None,
        provenance: EvidenceProvenance {
            compiler_version: "0.1.0".to_string(),
            candidate_semantics_version: 1,
            impl_semantics_version: 1,
        },
    }
}

#[test]
fn legacy_states_map_one_to_one() {
    assert_eq!(migrate_candidate_state(LegacyCandidateStateV1::Draft), CandidateState::Draft);
    assert_eq!(migrate_candidate_state(LegacyCandidateStateV1::WellTyped), CandidateState::WellTyped);
    assert_eq!(migrate_candidate_state(LegacyCandidateStateV1::Equivalent), CandidateState::Equivalent);
    assert_eq!(migrate_candidate_state(LegacyCandidateStateV1::Sealed), CandidateState::Sealed);
    assert_eq!(migrate_candidate_state(LegacyCandidateStateV1::Rejected), CandidateState::Rejected);
    assert_eq!(migrate_equivalence_status(LegacyEquivalenceStatusV1::Open), EquivalenceStatus::Open);
    assert_eq!(migrate_equivalence_status(LegacyEquivalenceStatusV1::Proved), EquivalenceStatus::Proved);
    assert_eq!(migrate_evidence_kind(LegacyEvidenceKindV1::IdentityLowering), EvidenceKind::IdentityLowering);
    assert_eq!(
        migrate_evidence_kind(LegacyEvidenceKindV1::KnownRewriteCertificate),
        EvidenceKind::KnownRewriteCertificate
    );
    assert_eq!(
        migrate_evidence_kind(LegacyEvidenceKindV1::CompositionalEquivalence),
        EvidenceKind::CompositionalEquivalence
    );
    assert_eq!(migrate_evidence_kind(LegacyEvidenceKindV1::DifferentialTest), EvidenceKind::DifferentialTest);
    assert_eq!(migrate_evidence_kind(LegacyEvidenceKindV1::PropertyTest), EvidenceKind::PropertyTest);
}

#[test]
fn legacy_events_keep_every_field() {
    let event = LegacyCandidateEventV1::Forked {
        parent_candidate: "c1".to_string(),
        parent_revision: "cr2".to_string(),
        candidate: "c2".to_string(),
        candidate_revision: "cr3".to_string(),
        candidate_hash: CandidateHash::new("h".to_string()),
    };
    match migrate_candidate_event(event) {
        CandidateEvent::Forked { parent_candidate, parent_revision, candidate, candidate_revision, candidate_hash } => {
            assert_eq!(parent_candidate, "c1");
            assert_eq!(parent_revision, "cr2");
            assert_eq!(candidate, "c2");
            assert_eq!(candidate_revision, "cr3");
            assert_eq!(candidate_hash.as_str(), "h");
        }
        other => panic!("unexpected event {other:?}"),
    }
    let sealed = LegacyCandidateEventV1::Sealed {
        candidate: "c1".to_string(),
        base_revision: "cr1".to_string(),
        candidate_revision: "cr2".to_string(),
        candidate_hash: CandidateHash::new("s".to_string()),
    };
    assert!(matches!(migrate_candidate_event(sealed), CandidateEvent::Sealed { candidate, .. } if candidate == "c1"));
}

#[test]
fn legacy_forest_migrates_in_key_order() {
    let mut revisions = IdMap::new();
    revisions.insert("cr2".to_string(), legacy_revision("cr2", LegacyCandidateStateV1::Sealed, LegacyEquivalenceStatusV1::Proved));
    revisions.insert("cr1".to_string(), legacy_revision("cr1", LegacyCandidateStateV1::Draft, LegacyEquivalenceStatusV1::Open));
    let mut candidates = IdMap::new();
    candidates.insert(
        "c1".to_string(),
        LegacyCandidateV1 {
            id: "c1".to_string(),
            spec_revision: "r3".to_string(),
            spec_hash: SpecHash("spec".to_string()),
            root_revision: "cr1".to_string(),
            head: "cr2".to_string(),
            revisions,
            parent_candidate: None,
            forked_from_revision: None,
        },
    );
    let mut evidence = IdMap::new();
    evidence.insert("ev1".to_string(), legacy_record("ev1", LegacyEvidenceKindV1::KnownRewriteCertificate));
    let events = vec![LegacyVersionedCandidateEventV1 {
        semantics_version: 1,
        event: LegacyCandidateEventV1::Sealed {
            candidate: "c1".to_string(),
            base_revision: "cr1".to_string(),
            candidate_revision: "cr2".to_string(),
            candidate_hash: CandidateHash::new("cand-cr2".to_string()),
        },
    }];
    let forest = LegacyCandidateForestV1 {
        candidates,
        evidence,
        allocator: LegacyCandidateAllocatorV1 { candidate: 1, revision: 2, operation: 5, value: 7, evidence: 1, obligation: 2 },
        events,
    };
    let mut migrated = migrate_candidate_forest_v1(forest);
    let candidate = migrated.candidates.get("c1").unwrap();
    assert_eq!(candidate.head, "cr2");
    assert_eq!(candidate.revisions.len(), 2);
    let (first_key, first) = candidate.revisions.entry_at(0);
    assert_eq!(first_key, "cr1");
    assert_eq!(first.state, CandidateState::Draft);
    assert_eq!(first.equivalence.status, EquivalenceStatus::Open);
    let sealed = candidate.revisions.get("cr2").unwrap();
    assert_eq!(sealed.state, CandidateState::Sealed);
    assert_eq!(sealed.equivalence.status, EquivalenceStatus::Proved);
    assert_eq!(sealed.equivalence.id, "co-cr2");
    assert_eq!(sealed.evidence, vec!["ev1".to_string()]);
    let record = migrated.evidence.get("ev1").unwrap();
    assert_eq!(record.kind, EvidenceKind::KnownRewriteCertificate);
    assert_eq!(record.method, "identity_lower");
    assert_eq!(migrated.events.len(), 1);
    assert_eq!(migrated.events[0].semantics_version, 1);
    assert!(matches!(&migrated.events[0].event, CandidateEvent::Sealed { candidate_revision, .. } if candidate_revision == "cr2"));
    assert_eq!(migrated.allocator.candidate(), "c2");
    assert_eq!(migrated.allocator.revision(), "cr3");
    assert_eq!(migrated.allocator.impl_operation(), "iop6");
    assert_eq!(migrated.allocator.impl_value(), "iv8");
    assert_eq!(migrated.allocator.evidence(), "ev2");
    assert_eq!(migrated.allocator.obligation(), "co3");
}
