use agentir_core::diagnostics::ErrorCode;
use agentir_core::idmap::IdMap;
use agentir_core::impl_ir::ImplProgram;
use agentir_core::memory_check::verify_memory_program;
use agentir_core::memory_ir::{MemoryBinding, MemoryOperation, MemoryProgram};
use agentir_core::resources::ResourceLimits;

fn limits(operations: u64) -> ResourceLimits {
    ResourceLimits {
        memory_layout_entries: 16,
        memory_buffers_per_plan: 16,
        memory_operations_per_plan: operations,
        memory_accesses_per_plan: 64,
        memory_alias_domains: 16,
        memory_alias_facts: 256,
        memory_lifetime_points: 64,
        memory_lifetime_uses: 64,
        memory_allocation_bytes_per_buffer: 1 << 16,
        memory_total_allocation_bytes: 1 << 20,
        memory_guard_dependencies: 4,
        memory_guard_depth: 2,
        memory_fallback_depth: 2,
        memory_reuse_attempts: 8,
        memory_obligations: 16,
        memory_canonical_bytes: 1 << 20,
        memory_plans_per_workspace: 16,
        memory_revisions_per_workspace: 64,
        memory_events: 64,
        benchmark_warmups: 4,
        benchmark_iterations: 16,
    }
}

fn empty_impl() -> ImplProgram {
    ImplProgram {
        dimensions: IdMap::new(),
        operations: IdMap::new(),
        operation_order: Vec::new(),
        values: IdMap::new(),
        parameters: IdMap::new(),
        constants: IdMap::new(),
        outputs: IdMap::new(),
        constraints: Vec::new(),
        numeric_contract: serde_json::Value::Null,
    }
}

fn empty_memory() -> MemoryProgram {
    MemoryProgram {
        bindings: IdMap::new(),
        buffers: IdMap::new(),
        fresh_baseline_buffers: IdMap::new(),
        operations: IdMap::new(),
        operation_order: Vec::new(),
        operation_for_impl: IdMap::new(),
        outputs: IdMap::new(),
        alias_domains: IdMap::new(),
        alias_facts: Vec::new(),
        reuse_decisions: IdMap::new(),
    }
}

#[test]
fn an_empty_plan_of_an_empty_program_verifies() {
    assert!(verify_memory_program(&empty_memory(), &empty_impl(), &limits(4)).is_ok());
}

#[test]
fn plans_over_budget_are_rejected_first() {
    let mut memory = empty_memory();
    memory.operations.insert(
        "mop1".to_string(),
        MemoryOperation {
            id: "mop1".to_string(),
            impl_operation: "iop1".to_string(),
            opcode: "add".to_string(),
            operands: Vec::new(),
            results: Vec::new(),
            accesses: Vec::new(),
        },
    );
    let error = verify_memory_program(&memory, &empty_impl(), &limits(0)).unwrap_err();
    assert_eq!(error.code, ErrorCode::ResourceLimitExceeded);
}

#[test]
fn bindings_must_cover_exactly_the_reachable_results() {
    let mut memory = empty_memory();
    memory.bindings.insert("iv9".to_string(), MemoryBinding::Scalar { value: "iv9".to_string() });
    let error = verify_memory_program(&memory, &empty_impl(), &limits(4)).unwrap_err();
    assert_eq!(error.code, ErrorCode::MemoryEquivalenceUnproved);
}
