//! Verified compiler core for AgentIR: typed physical buffer plans, compact
//! shape facts, portable CPU artifacts and their deterministic identities.

pub mod text;
pub mod idmap;
pub mod diagnostics;
pub mod ids;
pub mod types;
pub mod json;
pub mod holes;
pub mod obligations;
pub mod ir;
pub mod impl_ir;
pub mod resources;
pub mod memory_ir;
pub mod memory;
pub mod memory_continuation;
pub mod dependency;
pub mod memory_check;
pub mod bufferize;
pub mod fresh;
pub mod memory_transaction;
pub mod prune;
pub mod substitute;
pub mod semantic;
pub mod schedule;
pub mod target;
pub mod digest;
pub mod cpu;
pub mod cpu_store;
pub mod constraint_order;
pub mod constraints;
pub mod cpu_measurement;
pub mod cpu_measurement_store;
pub mod candidate;
pub mod backend_ir;
pub mod backend;
pub mod backend_check;
pub mod artifact_check;
pub mod backend_store;
pub mod candidate_store;
pub mod hardware_measurement;
pub mod equality;
pub mod continuation;
pub mod actions;
pub mod revision;
pub mod persistence;
pub mod fold;
pub mod lowering;
