use agentir_core::backend::compiler_build_hash;
use agentir_core::cpu::{cpu_artifact_hash, cpu_compiler_build_hash};
use agentir_core::cpu_measurement::{
    cpu_benchmark_config_hash, cpu_host_fingerprint_hash, cpu_input_hash, cpu_measurement_hash, cpu_output_hash,
};
use agentir_core::digest::{content_hash, digest_text};
use sha2::{Digest, Sha256};

fn hex_sha256(data: &[u8]) -> String {
    Sha256::digest(data).iter().map(|b| format!("{b:02x}")).collect()
}

fn labeled(label: &str, bytes: &[u8]) -> String {
    let mut data = label.as_bytes().to_vec();
    data.extend_from_slice(bytes);
    hex_sha256(&data)
}

#[test]
fn content_hash_of_empty_bytes_is_the_sha256_of_nothing() {
    assert_eq!(
        content_hash(b""),
        "e3b0c44298fc1c149afbf4c8996fb92427ae41e4649b934ca495991b7852b855"
    );
}

#[test]
fn content_hash_is_stable_and_content_sensitive() {
    let bytes = br#"{"frozen":false}"#;
    let first = content_hash(bytes);
    assert_eq!(first, content_hash(bytes));
    assert_eq!(first, hex_sha256(bytes));
    assert_eq!(first.len(), 64);
    assert_ne!(first, content_hash(br#"{"frozen":true}"#));
}

#[test]
fn domain_digests_prefix_the_domain() {
    assert_eq!(digest_text(b"domain\0", b"abc"), labeled("domain\0", b"abc"));
    assert_ne!(digest_text(b"domain\0", b"abc"), digest_text(b"other\0", b"abc"));
}

#[test]
fn cpu_artifact_hash_is_domain_separated() {
    let canonical = br#"{"kind":"cpu"}"#;
    let hash = cpu_artifact_hash(canonical);
    assert_eq!(hash.0, labeled("agentir.artifact.cpu.scalar.v1\0", canonical));
    assert_ne!(hash.0, hex_sha256(canonical));
}

#[test]
fn compiler_build_identities_are_fixed() {
    let cpu = cpu_compiler_build_hash();
    assert_eq!(
        cpu.0,
        labeled("agentir.compiler.cpu_scalar.v1\0", b"agentir:0.1.0:cpu_artifact=1:validator=1")
    );
    assert_eq!(cpu.0, cpu_compiler_build_hash().0);
    let backend = compiler_build_hash();
    assert_eq!(backend.0.len(), 64);
    assert_ne!(backend.0, cpu.0);
}

#[test]
fn measurement_identities_use_their_own_labels() {
    let encoded = b"[1,2,3]";
    assert_eq!(cpu_benchmark_config_hash(encoded).0, labeled("agentir.cpu.benchmark.config.v1\0", encoded));
    assert_eq!(cpu_input_hash(encoded).0, labeled("agentir.cpu.benchmark.input.v1\0", encoded));
    assert_eq!(cpu_host_fingerprint_hash(encoded).0, labeled("agentir.cpu.host.fingerprint.v1\0", encoded));
    assert_eq!(cpu_output_hash(encoded).0, labeled("agentir.cpu.measurement.output.v1\0", encoded));
    assert_eq!(cpu_measurement_hash(encoded).0, labeled("agentir.cpu.measurement.v1\0", encoded));
}
