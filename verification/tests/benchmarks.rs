use agentir_core::cpu_measurement::{
    aggregate_cpu_durations, validate_cpu_benchmark_config, CpuAggregationMethod, CpuBenchmarkConfig,
    CpuMeasurementStore,
};
use agentir_core::diagnostics::ErrorCode;
use agentir_core::resources::ResourceLimits;

fn limits(warmups: u64, iterations: u64) -> ResourceLimits {
    ResourceLimits {
        memory_layout_entries: 64,
        memory_buffers_per_plan: 64,
        memory_operations_per_plan: 64,
        memory_accesses_per_plan: 256,
        memory_alias_domains: 64,
        memory_alias_facts: 1024,
        memory_lifetime_points: 64,
        memory_lifetime_uses: 256,
        memory_allocation_bytes_per_buffer: 1 << 20,
        memory_total_allocation_bytes: 1 << 24,
        memory_guard_dependencies: 8,
        memory_guard_depth: 4,
        memory_fallback_depth: 4,
        memory_reuse_attempts: 8,
        memory_obligations: 16,
        memory_canonical_bytes: 1 << 20,
        memory_plans_per_workspace: 16,
        memory_revisions_per_workspace: 64,
        memory_events: 64,
        benchmark_warmups: warmups,
        benchmark_iterations: iterations,
    }
}

#[test]
fn aggregates_of_an_odd_sample() {
    let a = aggregate_cpu_durations(&[30, 10, 20]).unwrap();
    assert_eq!((a.min_ns, a.median_ns, a.p95_ns, a.max_ns), (10, 20, 30, 30));
}

#[test]
fn aggregates_of_an_even_sample_floor_the_median() {
    let a = aggregate_cpu_durations(&[4, 1, 3, 2]).unwrap();
    assert_eq!((a.min_ns, a.median_ns, a.p95_ns, a.max_ns), (1, 2, 4, 4));
    let a = aggregate_cpu_durations(&[u64::MAX, u64::MAX - 1]).unwrap();
    assert_eq!(a.median_ns, u64::MAX - 1);
}

#[test]
fn p95_uses_the_nearest_rank() {
    let samples: Vec<u64> = (1..=20).rev().collect();
    let a = aggregate_cpu_durations(&samples).unwrap();
    assert_eq!((a.min_ns, a.median_ns, a.p95_ns, a.max_ns), (1, 10, 19, 20));
    let one = aggregate_cpu_durations(&[7]).unwrap();
    assert_eq!((one.min_ns, one.median_ns, one.p95_ns, one.max_ns), (7, 7, 7, 7));
}

#[test]
fn aggregates_do_not_depend_on_sample_order() {
    let a = aggregate_cpu_durations(&[5, 9, 1, 7, 3]).unwrap();
    let b = aggregate_cpu_durations(&[1, 3, 5, 7, 9]).unwrap();
    assert_eq!(
        (a.min_ns, a.median_ns, a.p95_ns, a.max_ns),
        (b.min_ns, b.median_ns, b.p95_ns, b.max_ns)
    );
}

#[test]
fn empty_samples_are_an_invalid_configuration() {
    let error = aggregate_cpu_durations(&[]).unwrap_err();
    assert_eq!(error.code, ErrorCode::CpuMeasurementConfigInvalid);
}

#[test]
fn configuration_validation_counts_executions() {
    let config = CpuBenchmarkConfig::v1(3, 10);
    assert_eq!(config.format_version, 1);
    assert_eq!(config.aggregation, CpuAggregationMethod::OrderedIntegerNsV1);
    assert_eq!(validate_cpu_benchmark_config(&config, &limits(3, 10)).unwrap(), 13);
}

#[test]
fn configuration_errors() {
    let none = CpuBenchmarkConfig::v1(0, 0);
    assert_eq!(
        validate_cpu_benchmark_config(&none, &limits(8, 8)).unwrap_err().code,
        ErrorCode::CpuMeasurementConfigInvalid
    );
    let mut wrong_version = CpuBenchmarkConfig::v1(0, 1);
    wrong_version.format_version = 2;
    assert_eq!(
        validate_cpu_benchmark_config(&wrong_version, &limits(8, 8)).unwrap_err().code,
        ErrorCode::CpuMeasurementConfigInvalid
    );
    assert_eq!(
        validate_cpu_benchmark_config(&CpuBenchmarkConfig::v1(9, 1), &limits(8, 8)).unwrap_err().code,
        ErrorCode::ResourceLimitExceeded
    );
    assert_eq!(
        validate_cpu_benchmark_config(&CpuBenchmarkConfig::v1(1, 9), &limits(8, 8)).unwrap_err().code,
        ErrorCode::ResourceLimitExceeded
    );
}

#[test]
fn empty_measurement_store_has_no_records() {
    let store = CpuMeasurementStore::new();
    assert!(store.query("cm1").is_err());
}
