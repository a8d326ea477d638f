//! Publication of portable CPU packages into the content-addressed store.

use crate::cpu::spec_cpu_artifact_hash;
use crate::cpu::{
    binding_registers, bindings_valid, certificate_conditions, constants_valid, cpu_artifact_hash, cpu_artifact_verdict,
    cpu_compiler_build_hash, header_valid, instruction_total, outputs_valid, query_matches, registers_dense, run_instructions,
    verify_cpu_artifact, CpuArtifactAnchor, CpuArtifactCertificate, CpuArtifactCheckReport, CpuArtifactDraft,
    CpuArtifactEvent, CpuArtifactHash, CpuArtifactPackage, CpuArtifactStatus, CpuArtifactStore, CpuBinding, CpuConstant,
    CpuCompilerBuildHash, CpuFunction, CpuInstruction, CpuOutput, CpuScalarFunction, CpuScalarInstruction,
    VersionedCpuArtifactEvent, CPU_ARTIFACT_EVENT_SEMANTICS_VERSION, CPU_ARTIFACT_FORMAT_VERSION,
    CPU_ARTIFACT_VALIDATOR_VERSION,
};
use crate::diagnostics::{AgentError, AgentResult, ErrorCode};
use crate::ids::{SchedulePlanId, ScheduleRevisionId};
use crate::impl_ir::ImplHash;
use crate::memory::MemoryHash;
use crate::schedule::ScheduleHash;
use crate::semantic::SpecHash;
use crate::target::TargetHash;
use crate::text::str_eq;
use vstd::prelude::*;
use vstd::string::StrSliceExecFns;

verus! {

fn copy_scalar_function(f: &CpuScalarFunction) -> CpuScalarFunction {
    let mut instructions: Vec<CpuScalarInstruction> = Vec::new();
    let mut i: usize = 0;
    while i < f.instructions.len()
        decreases f.instructions.len() - i,
    {
        let x = &f.instructions[i];
        instructions.push(CpuScalarInstruction { output: x.output, opcode: x.opcode, operands: x.operands.clone() });
        i = i + 1;
    }
    CpuScalarFunction { arguments: f.arguments, instructions, result: f.result }
}

fn copy_instruction(x: &CpuInstruction) -> CpuInstruction {
    match x {
        CpuInstruction::ConstantF32 { output, constant } => CpuInstruction::ConstantF32 { output: *output, constant: *constant },
        CpuInstruction::AddF32 { output, lhs, rhs } => CpuInstruction::AddF32 { output: *output, lhs: *lhs, rhs: *rhs },
        CpuInstruction::MulF32 { output, lhs, rhs } => CpuInstruction::MulF32 { output: *output, lhs: *lhs, rhs: *rhs },
        CpuInstruction::FmaF32 { output, a, b, c } => CpuInstruction::FmaF32 { output: *output, a: *a, b: *b, c: *c },
        CpuInstruction::MapF32 { output, input, extent, body } => CpuInstruction::MapF32 {
            output: *output,
            input: *input,
            extent: extent.copy(),
            body: copy_scalar_function(body),
        },
        CpuInstruction::ZipMapF32 { output, inputs, extent, body } => CpuInstruction::ZipMapF32 {
            output: *output,
            inputs: inputs.clone(),
            extent: extent.copy(),
            body: copy_scalar_function(body),
        },
    }
}

fn copy_anchor(a: &CpuArtifactAnchor) -> CpuArtifactAnchor {
    CpuArtifactAnchor {
        spec_revision: a.spec_revision.clone(),
        spec_hash: SpecHash(a.spec_hash.0.clone()),
        impl_hash: ImplHash(a.impl_hash.0.clone()),
        memory_hash: MemoryHash(a.memory_hash.0.clone()),
        memory_plan: a.memory_plan.clone(),
        memory_revision: a.memory_revision.clone(),
        target_hash: TargetHash(a.target_hash.0.clone()),
        target_manifest: a.target_manifest.clone(),
        target_revision: a.target_revision.clone(),
        schedule_hash: ScheduleHash(a.schedule_hash.0.clone()),
        schedule_plan: a.schedule_plan.clone(),
        schedule_revision: a.schedule_revision.clone(),
    }
}

/// Copies a package field by field.
fn copy_package(p: &CpuArtifactPackage) -> CpuArtifactPackage {
    let mut bindings: Vec<CpuBinding> = Vec::new();
    let mut i: usize = 0;
    while i < p.bindings.len()
        decreases p.bindings.len() - i,
    {
        let b = &p.bindings[i];
        let extent = match &b.extent {
            Some(e) => Some(e.copy()),
            None => None,
        };
        bindings.push(CpuBinding { name: b.name.clone(), register: b.register, value_type: b.value_type, extent });
        i = i + 1;
    }
    let mut constants: Vec<CpuConstant> = Vec::new();
    let mut j: usize = 0;
    while j < p.constants.len()
        decreases p.constants.len() - j,
    {
        constants.push(CpuConstant { index: p.constants[j].index, bits: p.constants[j].bits.clone() });
        j = j + 1;
    }
    let mut functions: Vec<CpuFunction> = Vec::new();
    let mut k: usize = 0;
    while k < p.functions.len()
        decreases p.functions.len() - k,
    {
        let f = &p.functions[k];
        let mut instructions: Vec<CpuInstruction> = Vec::new();
        let mut x: usize = 0;
        while x < f.instructions.len()
            decreases f.instructions.len() - x,
        {
            instructions.push(copy_instruction(&f.instructions[x]));
            x = x + 1;
        }
        functions.push(CpuFunction { name: f.name.clone(), register_count: f.register_count, instructions });
        k = k + 1;
    }
    let mut outputs: Vec<CpuOutput> = Vec::new();
    let mut o: usize = 0;
    while o < p.outputs.len()
        decreases p.outputs.len() - o,
    {
        let out = &p.outputs[o];
        outputs.push(CpuOutput { name: out.name.clone(), register: out.register, value_type: out.value_type });
        o = o + 1;
    }
    CpuArtifactPackage {
        id: p.id.clone(),
        format: p.format.clone(),
        format_version: p.format_version,
        target_profile: p.target_profile.clone(),
        anchor: copy_anchor(&p.anchor),
        compiler_build_hash: CpuCompilerBuildHash(p.compiler_build_hash.0.clone()),
        bindings,
        constants,
        functions,
        outputs,
        status: p.status,
        cpu_artifact_hash: CpuArtifactHash(p.cpu_artifact_hash.0.clone()),
        certificate: CpuArtifactCertificate {
            relation: p.certificate.relation.clone(),
            schedule_hash: ScheduleHash(p.certificate.schedule_hash.0.clone()),
            cpu_artifact_hash: CpuArtifactHash(p.certificate.cpu_artifact_hash.0.clone()),
            conditions: p.certificate.conditions.clone(),
            validator_version: p.certificate.validator_version,
        },
    }
}

/// Whether the instructions of every function of a package can be counted in
/// a `usize`.
proof fn lemma_instruction_total_grows(fs: Seq<CpuFunction>, a: nat, b: nat)
    requires
        a <= b,
    ensures
        instruction_total(fs, a) <= instruction_total(fs, b),
    decreases b - a,
{
    if a < b {
        lemma_instruction_total_grows(fs, a, (b - 1) as nat);
    }
}

fn instructions_countable(p: &CpuArtifactPackage) -> (r: bool)
    ensures
        r == (instruction_total(p.functions@, p.functions@.len()) <= usize::MAX),
{
    let mut total: usize = 0;
    let mut i: usize = 0;
    while i < p.functions.len()
        invariant
            i <= p.functions@.len(),
            total == instruction_total(p.functions@, i as nat),
        decreases p.functions.len() - i,
    {
        let n = p.functions[i].instructions.len();
        if total > usize::MAX - n {
            proof {
                lemma_instruction_total_grows(p.functions@, (i + 1) as nat, p.functions@.len());
            }
            return false;
        }
        total = total + n;
        i = i + 1;
    }
    true
}

fn bytes_equal(a: &Vec<u8>, b: &Vec<u8>) -> (r: bool)
    ensures
        r == (a@ == b@),
{
    if a.len() != b.len() {
        return false;
    }
    let mut i: usize = 0;
    while i < a.len()
        invariant
            a@.len() == b@.len(),
            i <= a@.len(),
            forall|j: int| 0 <= j < i ==> a@[j] == b@[j],
        decreases a.len() - i,
    {
        if a[i] != b[i] {
            return false;
        }
        i = i + 1;
    }
    assert(a@ =~= b@);
    true
}

/// The ordered conditions that the structural certificate of a new package proves.
fn certificate_condition_texts() -> (r: Vec<String>)
    ensures
        r@.map_values(|s: String| s@) == certificate_conditions(),
{
    vec![
        String::from_str("immutable_stage_1_4_anchor_chain_verified"),
        String::from_str("serial_schedule_coverage_preserved"),
        String::from_str("one_dimensional_f32_binding_types_verified"),
        String::from_str("ordered_scalar_bytecode_lowering_verified"),
        String::from_str("compiler_owned_bounds_validation_retained"),
    ]
}

/// Whether `p` and `q` agree, text by text, on everything but their content
/// identity: the package id, the package hash and the certificate's copy of
/// that hash.
pub open spec fn same_but_identity(p: CpuArtifactPackage, q: CpuArtifactPackage) -> bool {
    &&& p.format@ == q.format@
    &&& p.format_version == q.format_version
    &&& p.target_profile@ == q.target_profile@
    &&& p.anchor == q.anchor
    &&& p.compiler_build_hash.0@ == q.compiler_build_hash.0@
    &&& p.bindings == q.bindings
    &&& p.constants == q.constants
    &&& p.functions == q.functions
    &&& p.outputs == q.outputs
    &&& p.status == q.status
    &&& p.certificate.relation@ == q.certificate.relation@
    &&& p.certificate.schedule_hash.0@ == q.certificate.schedule_hash.0@
    &&& p.certificate.conditions@.map_values(|s: String| s@) == q.certificate.conditions@.map_values(|s: String| s@)
    &&& p.certificate.validator_version == q.certificate.validator_version
}

/// Whether `canonical` gives one encoding to all packages that differ only in
/// their content identity, as a canonical encoding that leaves out the
/// identity fields does.
pub open spec fn encoding_ignores_identity<F: Fn(&CpuArtifactPackage) -> Vec<u8>>(canonical: F) -> bool {
    forall|p: CpuArtifactPackage, q: CpuArtifactPackage, a: Vec<u8>, b: Vec<u8>|
        same_but_identity(p, q) && #[trigger] canonical.ensures((&p,), a) && #[trigger] canonical.ensures((&q,), b) ==> a@
            == b@
}

/// Whether a package holding the draft's parts passes structural validation.
pub open spec fn draft_verifies(d: CpuArtifactDraft) -> bool {
    &&& bindings_valid(d.bindings@)
    &&& constants_valid(d.constants@)
    &&& d.functions@.len() == 1
    &&& d.functions@[0].name@ == "main"@
    &&& run_instructions(d.functions@[0].instructions@, d.constants@.len(), binding_registers(d.bindings@)) matches Some(rf)
        && registers_dense(rf, d.functions@[0].register_count) && outputs_valid(d.outputs@, rf)
    &&& d.outputs@.len() > 0
}

/// Whether `p` is a package that emitting `d` builds: the draft's parts under
/// the fixed format and certificate, named by the first sixteen characters of
/// its hash.
pub open spec fn drafted_package(p: CpuArtifactPackage, d: CpuArtifactDraft) -> bool {
    &&& p.anchor == d.anchor
    &&& p.bindings == d.bindings
    &&& p.constants == d.constants
    &&& p.functions == d.functions
    &&& p.outputs == d.outputs
    &&& header_valid(p)
    &&& p.certificate.relation@ == "cpu_artifact_equivalent_to_schedule"@
    &&& p.certificate.schedule_hash.0@ == d.anchor.schedule_hash.0@
    &&& p.certificate.cpu_artifact_hash.0@ == p.cpu_artifact_hash.0@
    &&& p.certificate.validator_version == CPU_ARTIFACT_VALIDATOR_VERSION
    &&& p.certificate.conditions@.map_values(|s: String| s@) == certificate_conditions()
    &&& p.cpu_artifact_hash.0@.len() == 64
    &&& p.id@ == "cpuart-"@ + p.cpu_artifact_hash.0@.subrange(0, 16)
}

impl CpuArtifactStore {
    /// Atomically publishes one trusted lowering result as a package whose
    /// identity is the digest of its canonical semantic bytes, which
    /// `canonical` gives. Publishing the same package again re-checks it;
    /// a different package under the same identity is refused. The store is
    /// unchanged on every error.
    pub fn emit<F: Fn(&CpuArtifactPackage) -> Vec<u8>>(
        &mut self,
        schedule_plan: SchedulePlanId,
        schedule_revision: ScheduleRevisionId,
        schedule_event_cursor: u64,
        draft: CpuArtifactDraft,
        canonical: F,
    ) -> (r: AgentResult<CpuArtifactCheckReport>)
        requires
            forall|p: &CpuArtifactPackage| canonical.requires((p,)),
        ensures
            r is Err ==> *final(self) == *old(self),
            draft_verifies(draft) && encoding_ignores_identity(canonical) && instruction_total(
                draft.functions@,
                draft.functions@.len(),
            ) <= usize::MAX ==> r is Ok || (r matches Err(e) && e.code == ErrorCode::CpuArtifactInvalid && exists|
                q: CpuArtifactPackage,
                b: Vec<u8>,
            |
                #![trigger drafted_package(q, draft), canonical.ensures((&q,), b)]
                drafted_package(q, draft) && canonical.ensures((&q,), b) && q.cpu_artifact_hash.0@ == spec_cpu_artifact_hash(b@)
                    && old(self).packages@.contains_key(q.id@) && old(self).packages@[q.id@] != q),
            draft_verifies(draft) && encoding_ignores_identity(canonical) && instruction_total(
                draft.functions@,
                draft.functions@.len(),
            ) <= usize::MAX && (exists|q: CpuArtifactPackage, b: Vec<u8>|
                #![trigger drafted_package(q, draft), canonical.ensures((&q,), b)]
                drafted_package(q, draft) && canonical.ensures((&q,), b) && q.cpu_artifact_hash.0@ == spec_cpu_artifact_hash(b@)
                    && old(self).packages@.contains_key(q.id@) && old(self).packages@[q.id@] == q) ==> r is Ok && *final(self)
                == *old(self),
            r matches Ok(report) ==> ({
                let id = report.query.cpu_artifact@;
                let p = final(self).packages@[id];
                &&& !old(self).packages@.contains_key(id) ==> drafted_package(p, draft)
                &&& old(self).packages@.contains_key(id) ==> exists|q: CpuArtifactPackage| #[trigger] drafted_package(q, draft)
                    && q.id@ == id
            }),
            r matches Ok(report) ==> ({
                let id = report.query.cpu_artifact@;
                let p = final(self).packages@[id];
                &&& final(self).packages@.contains_key(id)
                &&& exists|bytes: Vec<u8>| #[trigger] canonical.ensures((&p,), bytes) && cpu_artifact_verdict(p, bytes@) is Ok
                    && query_matches(report.query, p, bytes@.len() as usize)
                &&& report.offline_valid && report.equivalent_to_schedule
                &&& old(self).packages@.contains_key(id) ==> *final(self) == *old(self)
                &&& !old(self).packages@.contains_key(id) ==> final(self).packages@ == old(self).packages@.insert(id, p)
                    && final(self).events@.len() == old(self).events@.len() + 1
            }),
    {
        let schedule_hash = ScheduleHash(draft.anchor.schedule_hash.0.clone());
        let mut package = CpuArtifactPackage {
            id: String::from_str("cpuart-pending"),
            format: String::from_str("agentir.cpu.scalar.package"),
            format_version: CPU_ARTIFACT_FORMAT_VERSION,
            target_profile: String::from_str("cpu_scalar_v1"),
            anchor: draft.anchor,
            compiler_build_hash: cpu_compiler_build_hash(),
            bindings: draft.bindings,
            constants: draft.constants,
            functions: draft.functions,
            outputs: draft.outputs,
            status: CpuArtifactStatus::Validated,
            cpu_artifact_hash: CpuArtifactHash(String::from_str("pending")),
            certificate: CpuArtifactCertificate {
                relation: String::from_str("cpu_artifact_equivalent_to_schedule"),
                schedule_hash,
                cpu_artifact_hash: CpuArtifactHash(String::from_str("pending")),
                conditions: certificate_condition_texts(),
                validator_version: CPU_ARTIFACT_VALIDATOR_VERSION,
            },
        };
        let ghost pending_package = package;
        let pending = canonical(&package);
        let hash = cpu_artifact_hash(pending.as_slice());
        package.certificate.cpu_artifact_hash = CpuArtifactHash(hash.0.clone());
        let prefix = hash.0.as_str().substring_char(0, 16);
        let mut id = String::from_str("cpuart-");
        id.append(prefix);
        package.cpu_artifact_hash = hash;
        package.id = id;
        proof {
            reveal_strlit("cpuart-");
            assert(same_but_identity(pending_package, package));
            assert(drafted_package(package, draft));
        }
        let bytes = canonical(&package);
        verify_cpu_artifact(&package, bytes.as_slice())?;
        if !instructions_countable(&package) {
            return Err(AgentError::new(ErrorCode::ResourceLimitExceeded, "CPU instruction count exceeds the machine word"));
        }
        match self.packages.get(package.id.as_str()) {
            Some(existing) => {
                let existing_bytes = canonical(existing);
                if str_eq(existing.id.as_str(), package.id.as_str()) && bytes_equal(&existing_bytes, &bytes) && str_eq(
                    existing.cpu_artifact_hash.0.as_str(),
                    package.cpu_artifact_hash.0.as_str(),
                ) && instructions_countable(existing) {
                    match self.check(package.id.as_str(), existing_bytes.as_slice()) {
                        Ok(report) => {
                            return Ok(report);
                        },
                        Err(_) => {},
                    }
                }
                proof {
                    if *existing == package {
                        assert(same_but_identity(package, package));
                    }
                }
                return Err(AgentError::new(ErrorCode::CpuArtifactInvalid, "CPU artifact content identity collision"));
            },
            None => {},
        }
        let event = VersionedCpuArtifactEvent {
            semantics_version: CPU_ARTIFACT_EVENT_SEMANTICS_VERSION,
            event: CpuArtifactEvent {
                schedule_plan,
                schedule_revision,
                package: copy_package(&package),
                schedule_event_cursor,
            },
        };
        let key = package.id.clone();
        let id_text = package.id.clone();
        self.packages.insert(key, package);
        self.events.push(event);
        self.check(id_text.as_str(), bytes.as_slice())
    }
}

} // verus!
