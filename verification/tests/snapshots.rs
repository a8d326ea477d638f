use agentir_core::constraints::ConstraintFacts;
use agentir_core::diagnostics::ErrorCode;
use agentir_core::idmap::IdMap;
use agentir_core::ids::IdAllocator;
use agentir_core::ir::{Dimension, Program};
use agentir_core::persistence::{
    migrate_snapshot_v1, migrate_snapshot_v2, migrate_snapshot_v3, migrate_snapshot_v4, migrate_snapshot_v5,
    migrate_snapshot_v6, LegacyRevisionV1, LegacyWorkspaceSnapshotV1, WorkspaceEvent,
    LEGACY_CORE_SEMANTICS_VERSION,
};
use agentir_core::revision::StatusSummary;
use agentir_core::types::{DimExpr, Shape, ShapeConstraint};

fn empty_program() -> Program {
    Program {
        dimensions: IdMap::new(),
        dimension_names: IdMap::new(),
        operations: IdMap::new(),
        operation_order: Vec::new(),
        values: IdMap::new(),
        parameters: IdMap::new(),
        constants: IdMap::new(),
        outputs: IdMap::new(),
        holes: IdMap::new(),
        constraints: Vec::new(),
        obligations: IdMap::new(),
        numeric_contract: serde_json::Value::Null,
        frozen: false,
    }
}

fn legacy_revision(id: &str) -> LegacyRevisionV1 {
    LegacyRevisionV1 {
        id: id.to_string(),
        parents: Vec::new(),
        content_hash: format!("hash-{id}"),
        program: empty_program(),
        applied_transaction: None,
        created_at_unix_ms: 7,
        status: StatusSummary { values: 0, operations: 0, open_holes: 0, open_obligations: 0, frozen: false },
    }
}

fn v1(schema_version: u32) -> LegacyWorkspaceSnapshotV1 {
    let mut revisions = IdMap::new();
    revisions.insert("r1".to_string(), legacy_revision("r1"));
    revisions.insert("r0".to_string(), legacy_revision("r0"));
    LegacyWorkspaceSnapshotV1 {
        schema_version,
        workspace: "w1".to_string(),
        head: "r1".to_string(),
        revisions,
        allocator: IdAllocator::new(),
        events: vec![WorkspaceEvent::RevisionForked {
            base_revision: "r0".to_string(),
            revision: "r1".to_string(),
            content_hash: "hash-r1".to_string(),
        }],
    }
}

#[test]
fn snapshots_migrate_step_by_step_to_schema_seven() {
    let s2 = migrate_snapshot_v1(v1(1)).unwrap();
    assert_eq!(s2.schema_version, 2);
    assert_eq!(s2.revisions.len(), 2);
    let (first, revision) = s2.revisions.entry_at(0);
    assert_eq!(first, "r0");
    assert!(revision.spec_hash.is_none() && revision.semantic_canonical_version.is_none());
    assert_eq!(revision.content_hash, "hash-r0");
    assert_eq!(revision.created_at_unix_ms, 7);
    let s3 = migrate_snapshot_v2(s2).unwrap();
    assert_eq!(s3.schema_version, 3);
    assert_eq!(s3.events.len(), 1);
    assert_eq!(s3.events[0].semantics_version, LEGACY_CORE_SEMANTICS_VERSION);
    let s4 = migrate_snapshot_v3(s3).unwrap();
    assert_eq!(s4.schema_version, 4);
    assert_eq!(s4.candidate_event_count(), 0);
    assert_eq!(s4.candidate_counts(), (0, 0, 0));
    let s5 = migrate_snapshot_v4(s4).unwrap();
    assert_eq!(s5.schema_version, 5);
    assert_eq!(s5.candidate_forest.candidates.len(), 0);
    let s6 = migrate_snapshot_v5(s5).unwrap();
    assert_eq!(s6.schema_version, 6);
    assert_eq!(s6.equality_store.spaces.len(), 0);
    let s7 = migrate_snapshot_v6(s6).unwrap();
    assert_eq!(s7.schema_version, 7);
    assert_eq!(s7.workspace, "w1");
    assert_eq!(s7.head, "r1");
    assert_eq!(s7.revisions.len(), 2);
    assert_eq!(s7.memory_store.plans.len(), 0);
}

#[test]
fn a_snapshot_of_the_wrong_version_is_a_format_error() {
    let error = migrate_snapshot_v1(v1(2)).unwrap_err();
    assert_eq!(error.code, ErrorCode::PersistenceFormat);
    assert_eq!(error.message, "legacy workspace snapshot version 2 is unsupported; expected 1");
    let mut s2 = migrate_snapshot_v1(v1(1)).unwrap();
    s2.schema_version = 3;
    assert_eq!(migrate_snapshot_v2(s2).unwrap_err().code, ErrorCode::PersistenceFormat);
}

#[test]
fn program_facts_declare_dimensions_then_insert_constraints() {
    let mut program = empty_program();
    program.dimensions.insert(
        "d1".to_string(),
        Dimension { id: "d1".to_string(), name: "n".to_string(), non_negative: true, provenance: "a1".to_string() },
    );
    program.constraints.push(ShapeConstraint::Equal {
        left: Shape(vec![DimExpr::Symbol("n".to_string())]),
        right: Shape(vec![DimExpr::Static(3)]),
    });
    let facts = ConstraintFacts::from_program(&program).unwrap();
    assert_eq!(facts.accepted_facts().len(), 1);
    program.constraints.push(ShapeConstraint::Equal {
        left: Shape(vec![DimExpr::Symbol("n".to_string())]),
        right: Shape(vec![DimExpr::Static(4)]),
    });
    assert_eq!(ConstraintFacts::from_program(&program).unwrap_err().code, ErrorCode::ConstraintContradiction);
    program.dimensions.insert(
        "d2".to_string(),
        Dimension { id: "d2".to_string(), name: "n".to_string(), non_negative: false, provenance: "a1".to_string() },
    );
    assert_eq!(ConstraintFacts::from_program(&program).unwrap_err().code, ErrorCode::InvalidConstraint);
}
