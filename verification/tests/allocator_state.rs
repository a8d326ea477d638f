use agentir_core::backend::{ArtifactStore, BackendAllocator, BackendStore, MeasurementStore};
use agentir_core::diagnostics::ErrorCode;
use agentir_core::idmap::IdMap;
use agentir_core::text::parse_u64_from;

fn stores(allocator: BackendAllocator) -> (BackendStore, ArtifactStore, MeasurementStore) {
    (
        BackendStore { plans: IdMap::new(), allocator, events: Vec::new() },
        ArtifactStore { packages: IdMap::new(), events: Vec::new() },
        MeasurementStore { records: IdMap::new(), events: Vec::new() },
    )
}

#[test]
fn a_fresh_allocator_resumes_after_empty_stores() {
    let (backend, artifacts, measurements) = stores(BackendAllocator::new());
    assert!(backend.verify_allocator_state(&artifacts, &measurements).is_ok());
}

#[test]
fn an_allocator_ahead_of_the_retained_identities_is_rejected() {
    let mut allocator = BackendAllocator::new();
    assert_eq!(allocator.measurement(), "meas1");
    let (backend, artifacts, measurements) = stores(allocator);
    let error = backend.verify_allocator_state(&artifacts, &measurements).unwrap_err();
    assert_eq!(error.code, ErrorCode::BackendEventOrderInvalid);
}

#[test]
fn identity_numbers_are_read_as_unsigned_decimal() {
    assert_eq!(parse_u64_from("bp12", 2), Some(12));
    assert_eq!(parse_u64_from("bp+7", 2), Some(7));
    assert_eq!(parse_u64_from("bp007", 2), Some(7));
    assert_eq!(parse_u64_from("bp", 2), None);
    assert_eq!(parse_u64_from("bp+", 2), None);
    assert_eq!(parse_u64_from("bp-1", 2), None);
    assert_eq!(parse_u64_from("bp1a", 2), None);
    assert_eq!(parse_u64_from("18446744073709551615", 0), Some(u64::MAX));
    assert_eq!(parse_u64_from("18446744073709551616", 0), None);
    assert_eq!(parse_u64_from("99999999999999999999", 0), None);
}

#[test]
fn backend_allocator_defaults_and_clones_by_value() {
    let mut a = BackendAllocator::default();
    assert_eq!(a, BackendAllocator::new());
    let b = a.clone();
    assert_eq!(a.plan(), "bp1");
    assert_ne!(a, b);
    assert_eq!(b.clone(), b);
}
