//! Resource budgets enforced by the verifiers.

use crate::diagnostics::{AgentError, AgentResult, ErrorCode};
use vstd::prelude::*;

verus! {

/// Configured resource budgets consulted by MemoryIR verification and CPU
/// measurement validation.
#[derive(Debug)]
pub struct ResourceLimits {
    /// Layout entries per buffer.
    pub memory_layout_entries: u64,
    /// Buffers per memory plan.
    pub memory_buffers_per_plan: u64,
    /// Operations per memory plan.
    pub memory_operations_per_plan: u64,
    /// Buffer accesses per memory plan.
    pub memory_accesses_per_plan: u64,
    /// Alias domains per memory plan.
    pub memory_alias_domains: u64,
    /// Alias facts per memory plan.
    pub memory_alias_facts: u64,
    /// Lifetime points per memory plan.
    pub memory_lifetime_points: u64,
    /// Lifetime uses per memory plan.
    pub memory_lifetime_uses: u64,
    /// Static allocation bytes of one buffer.
    pub memory_allocation_bytes_per_buffer: u64,
    /// Total static allocation bytes of a plan.
    pub memory_total_allocation_bytes: u64,
    /// Dependencies of one memory guard.
    pub memory_guard_dependencies: u64,
    /// Nesting depth of memory guards.
    pub memory_guard_depth: u64,
    /// Nesting depth of memory fallbacks.
    pub memory_fallback_depth: u64,
    /// Reuse choices offered by one memory continuation.
    pub memory_reuse_attempts: u64,
    /// Correctness obligations of one memory revision.
    pub memory_obligations: u64,
    /// Canonical encoding bytes of one memory revision.
    pub memory_canonical_bytes: u64,
    /// Memory plans in one workspace.
    pub memory_plans_per_workspace: u64,
    /// Memory revisions over every plan of one workspace.
    pub memory_revisions_per_workspace: u64,
    /// Memory events in one workspace.
    pub memory_events: u64,
    /// Benchmark warmup executions.
    pub benchmark_warmups: u64,
    /// Benchmark measured iterations.
    pub benchmark_iterations: u64,
}

/// Rejects `value` when it exceeds `limit`.
pub fn budget_against(limit: u64, value: u64, context: &str) -> (r: AgentResult<()>)
    ensures
        r is Ok <==> value <= limit,
        r matches Err(e) ==> e.code == ErrorCode::ResourceLimitExceeded,
{
    if value > limit {
        Err(AgentError::new(ErrorCode::ResourceLimitExceeded, context))
    } else {
        Ok(())
    }
}

} // verus!
