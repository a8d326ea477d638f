use agentir_core::candidate::CandidateHash;
use agentir_core::diagnostics::ErrorCode;
use agentir_core::equality::{
    EqualityAllocator, EqualityAnchor, EqualityHash, EqualityRevision, EqualitySpace, EqualityStatus, EqualityStore,
};
use agentir_core::idmap::IdMap;
use agentir_core::impl_ir::ImplHash;
use agentir_core::semantic::SpecHash;

fn store() -> EqualityStore {
    let mut revisions = IdMap::new();
    revisions.insert(
        "er1".to_string(),
        EqualityRevision {
            id: "er1".to_string(),
            parents: Vec::new(),
            nodes: IdMap::new(),
            edges: IdMap::new(),
            worklist: Vec::new(),
            status: EqualityStatus::FixedPoint,
            equality_hash: EqualityHash("e".repeat(64)),
            membership_proofs: Vec::new(),
            materializations: Vec::new(),
        },
    );
    let mut spaces = IdMap::new();
    spaces.insert(
        "es1".to_string(),
        EqualitySpace {
            id: "es1".to_string(),
            anchor: EqualityAnchor {
                spec_revision: "r1".to_string(),
                candidate: "c1".to_string(),
                candidate_revision: "cr1".to_string(),
                candidate_hash: CandidateHash("c".repeat(64)),
                root_impl_hash: ImplHash("i".repeat(64)),
            },
            spec_hash: SpecHash("s".repeat(64)),
            root_node: "en1".to_string(),
            head: "er1".to_string(),
            revisions,
            allocator: EqualityAllocator::new(),
        },
    );
    EqualityStore { spaces, allocator: EqualityAllocator::new(), events: Vec::new() }
}

#[test]
fn query_summarises_an_equality_revision() {
    let q = store().query("es1", "er1").ok().unwrap();
    assert_eq!(q.equality_space, "es1");
    assert_eq!(q.equality_revision, "er1");
    assert_eq!(q.equality_hash.0, "e".repeat(64));
    assert_eq!(q.spec_hash.0, "s".repeat(64));
    assert_eq!(q.root_impl_hash.0, "i".repeat(64));
    assert_eq!(q.status, EqualityStatus::FixedPoint);
    assert_eq!((q.node_count, q.edge_count, q.remaining_work), (0, 0, 0));
}

#[test]
fn query_reports_a_missing_space_or_revision() {
    let s = store();
    assert_eq!(s.query("es9", "er1").err().map(|e| e.code), Some(ErrorCode::EqualitySpaceNotFound));
    assert_eq!(s.query("es1", "er9").err().map(|e| e.code), Some(ErrorCode::EqualityRevisionNotFound));
}
