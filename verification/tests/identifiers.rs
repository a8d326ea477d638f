use agentir_core::candidate::CandidateAllocator;
use agentir_core::equality::EqualityAllocator;
use agentir_core::ids::IdAllocator;
use agentir_core::memory::MemoryAllocator;
use agentir_core::text::{concat_str, decimal_string, hex_string, prefixed_decimal, str_eq, str_less};
use agentir_core::types::{scalar_type_text, ScalarType};

#[test]
fn decimal_rendering_is_exact() {
    assert_eq!(decimal_string(0), "0");
    assert_eq!(decimal_string(7), "7");
    assert_eq!(decimal_string(1234567890), "1234567890");
    assert_eq!(decimal_string(u64::MAX), "18446744073709551615");
    assert_eq!(prefixed_decimal("op", 42), "op42");
}

#[test]
fn hex_rendering_is_two_lowercase_digits_per_byte() {
    assert_eq!(hex_string(&[]), "");
    assert_eq!(hex_string(&[0x00, 0x0f, 0xa5, 0xff]), "000fa5ff");
}

#[test]
fn string_order_and_equality_follow_content() {
    assert!(str_less("a", "b"));
    assert!(str_less("a", "ab"));
    assert!(!str_less("ab", "a"));
    assert!(!str_less("abc", "abc"));
    assert!(str_less("r10", "r9"));
    assert!(str_eq("same", "same"));
    assert!(!str_eq("same", "Same"));
    assert_eq!(concat_str("buf", "1"), "buf1");
}

#[test]
fn scalar_type_spellings_match_the_wire_format() {
    assert_eq!(scalar_type_text(ScalarType::Bool), "bool");
    assert_eq!(scalar_type_text(ScalarType::I32), "i32");
    assert_eq!(scalar_type_text(ScalarType::F32), "f32");
    assert_eq!(scalar_type_text(ScalarType::Index), "index");
}

#[test]
fn spec_identifiers_are_prefixed_and_never_reused() {
    let mut ids = IdAllocator::new();
    assert_eq!(ids.revision(), "r1");
    assert_eq!(ids.revision(), "r2");
    assert_eq!(ids.transaction(), "tx1");
    assert_eq!(ids.action(), "a1");
    assert_eq!(ids.operation(), "op1");
    assert_eq!(ids.value(), "v1");
    assert_eq!(ids.value(), "v2");
    assert_eq!(ids.dimension(), "d1");
    assert_eq!(ids.hole(), "h1");
    assert_eq!(ids.obligation(), "o1");
    assert_eq!(ids.frame(), "cf1");
}

#[test]
fn persistent_state_ignores_continuation_frames() {
    let mut a = IdAllocator::new();
    let mut b = IdAllocator::new();
    assert!(a.same_persistent_state(&b));
    a.frame();
    assert!(a.same_persistent_state(&b));
    a.value();
    assert!(!a.same_persistent_state(&b));
    b.value();
    assert!(a.same_persistent_state(&b));
}

#[test]
fn candidate_identifiers_use_their_own_counters() {
    let mut ids = CandidateAllocator::new();
    assert_eq!(ids.candidate(), "c1");
    assert_eq!(ids.revision(), "cr1");
    assert_eq!(ids.revision(), "cr2");
    assert_eq!(ids.impl_operation(), "iop1");
    assert_eq!(ids.impl_value(), "iv1");
    assert_eq!(ids.evidence(), "ev1");
    assert_eq!(ids.obligation(), "co1");
    let mut resumed = CandidateAllocator::from_legacy_counters(4, 9, 0, 0, 2, 0);
    assert_eq!(resumed.candidate(), "c5");
    assert_eq!(resumed.revision(), "cr10");
    assert_eq!(resumed.evidence(), "ev3");
}

#[test]
fn memory_identifiers_are_prefixed() {
    let mut ids = MemoryAllocator::new();
    assert_eq!(ids.plan(), "mp1");
    assert_eq!(ids.revision(), "mr1");
    assert_eq!(ids.buffer(), "buf1");
    assert_eq!(ids.buffer(), "buf2");
    assert_eq!(ids.operation(), "mop1");
    assert_eq!(ids.alias_domain(), "ad1");
    assert_eq!(ids.obligation(), "mo1");
    assert_eq!(ids.evidence(), "mev1");
    assert_eq!(ids.guard(), "mg1");
}

#[test]
fn equality_identifiers_are_prefixed() {
    let mut ids = EqualityAllocator::new();
    assert_eq!(ids.space(), "eqs1");
    assert_eq!(ids.revision(), "er1");
    assert_eq!(ids.node(), "en1");
    assert_eq!(ids.node(), "en2");
    assert_eq!(ids.edge(), "ee1");
}

#[test]
fn a_cloned_allocator_keeps_persistent_state_until_a_revision() {
    let mut a = IdAllocator::default();
    a.operation();
    a.frame();
    let mut c = a.clone();
    assert_eq!(c, a);
    c.frame();
    assert!(c.same_persistent_state(&a));
    assert_ne!(c, a);
    c.revision();
    assert!(!c.same_persistent_state(&a));
    let mut d = a.clone();
    assert_eq!(d.revision(), a.clone().revision());
    assert_eq!(d.operation(), "op2");
}

#[test]
fn allocators_default_to_their_fresh_state() {
    assert_eq!(IdAllocator::default(), IdAllocator::new());
    assert_eq!(CandidateAllocator::default(), CandidateAllocator::new());
    assert_eq!(EqualityAllocator::default(), EqualityAllocator::new());
    assert_eq!(MemoryAllocator::default(), MemoryAllocator::new());
    let mut m = MemoryAllocator::default();
    let n = m.clone();
    m.plan();
    assert_ne!(m, n);
}
