//! Compiler-owned portable CPU artifacts and deterministic structural checks.

use crate::diagnostics::{AgentError, AgentResult, ErrorCode};
use crate::idmap::IdMap;
use crate::digest::{digest_text, domain_digest, lemma_hex_len};
use crate::ids::{
    CpuArtifactId, MemoryPlanId, MemoryRevisionId, RevisionId, SchedulePlanId, ScheduleRevisionId,
    TargetManifestId, TargetManifestRevisionId,
};
use crate::impl_ir::ImplHash;
use crate::memory::MemoryHash;
use crate::schedule::ScheduleHash;
use crate::semantic::SpecHash;
use crate::target::TargetHash;
use crate::text::{decimal, lemma_less_transitive, push_decimal, seq_less, str_eq, str_less};
use vstd::prelude::*;
use vstd::string::StrSliceExecFns;
use vstd::utf8::encode_utf8;

verus! {

/// Portable scalar bytecode format version.
pub const CPU_ARTIFACT_FORMAT_VERSION: u32 = 1;
/// Structural CPU artifact validator version.
pub const CPU_ARTIFACT_VALIDATOR_VERSION: u32 = 1;
/// CPU artifact event replay semantics version.
pub const CPU_ARTIFACT_EVENT_SEMANTICS_VERSION: u32 = 1;

/// Domain separator for CPU compiler build identity (NUL-terminated).
pub open spec fn cpu_compiler_build_hash_domain() -> Seq<char> {
    "agentir.compiler.cpu_scalar.v1\0"@
}

/// Domain separator for portable scalar CPU artifact identity (NUL-terminated).
pub open spec fn cpu_artifact_hash_domain() -> Seq<char> {
    "agentir.artifact.cpu.scalar.v1\0"@
}

/// Version of the compiler whose build identity the artifacts carry.
pub open spec fn compiler_version() -> Seq<char> {
    "0.1.0"@
}

/// Exact identity of one portable scalar CPU package.
#[derive(Debug)]
pub struct CpuArtifactHash(pub String);

impl CpuArtifactHash {
    /// Creates a hash from lowercase hexadecimal text.
    pub fn new(value: String) -> (r: Self)
        ensures
            r.0@ == value@,
    {
        CpuArtifactHash(value)
    }

    /// Returns lowercase hexadecimal text.
    pub fn as_str(&self) -> (r: &str)
        ensures
            r@ == self.0@,
    {
        self.0.as_str()
    }
}

/// Identity of the deterministic CPU compiler contract.
#[derive(Debug)]
pub struct CpuCompilerBuildHash(pub String);

impl CpuCompilerBuildHash {
    /// Creates a hash from lowercase hexadecimal text.
    pub fn new(value: String) -> (r: Self)
        ensures
            r.0@ == value@,
    {
        CpuCompilerBuildHash(value)
    }

    /// Returns lowercase hexadecimal text.
    pub fn as_str(&self) -> (r: &str)
        ensures
            r@ == self.0@,
    {
        self.0.as_str()
    }
}

/// The text hashed into the CPU compiler build identity.
pub open spec fn cpu_build_model() -> Seq<char> {
    "agentir:"@ + compiler_version() + ":cpu_artifact="@ + decimal(CPU_ARTIFACT_FORMAT_VERSION as nat)
        + ":validator="@ + decimal(CPU_ARTIFACT_VALIDATOR_VERSION as nat)
}

/// The CPU compiler build identity.
pub open spec fn spec_cpu_compiler_build_hash() -> Seq<char> {
    domain_digest(encode_utf8(cpu_compiler_build_hash_domain()), encode_utf8(cpu_build_model()))
}

/// Current deterministic CPU compiler build identity.
pub fn cpu_compiler_build_hash() -> (r: CpuCompilerBuildHash)
    ensures
        r.0@ == spec_cpu_compiler_build_hash(),
        r.0@.len() == 64,
{
    let mut model = String::from_str("agentir:");
    model.append("0.1.0");
    model.append(":cpu_artifact=");
    push_decimal(&mut model, CPU_ARTIFACT_FORMAT_VERSION as u64);
    model.append(":validator=");
    push_decimal(&mut model, CPU_ARTIFACT_VALIDATOR_VERSION as u64);
    assert(model@ =~= cpu_build_model());
    let domain = "agentir.compiler.cpu_scalar.v1\0";
    CpuCompilerBuildHash(digest_text(domain.as_bytes(), model.as_str().as_bytes()))
}

/// The hexadecimal identity of a package with canonical semantic bytes `canonical`.
pub open spec fn spec_cpu_artifact_hash(canonical: Seq<u8>) -> Seq<char> {
    domain_digest(encode_utf8(cpu_artifact_hash_domain()), canonical)
}

/// Computes the independent CPU artifact hash from the package's canonical
/// semantic bytes (which exclude only the derived ID and hash fields).
pub fn cpu_artifact_hash(canonical: &[u8]) -> (r: CpuArtifactHash)
    ensures
        r.0@ == spec_cpu_artifact_hash(canonical@),
        r.0@.len() == 64,
{
    let domain = "agentir.artifact.cpu.scalar.v1\0";
    CpuArtifactHash(digest_text(domain.as_bytes(), canonical))
}

/// Immutable Stage 1-4 anchor retained by one CPU package.
#[derive(Debug)]
pub struct CpuArtifactAnchor {
    /// Frozen SpecIR revision identity.
    pub spec_revision: RevisionId,
    /// Frozen SpecIR semantic identity.
    pub spec_hash: SpecHash,
    /// Reachable ImplIR semantic identity.
    pub impl_hash: ImplHash,
    /// Exact MemoryIR identity.
    pub memory_hash: MemoryHash,
    /// Anchored MemoryIR plan.
    pub memory_plan: MemoryPlanId,
    /// Anchored MemoryIR revision.
    pub memory_revision: MemoryRevisionId,
    /// Immutable CPU target identity.
    pub target_hash: TargetHash,
    /// Anchored target manifest.
    pub target_manifest: TargetManifestId,
    /// Anchored target revision.
    pub target_revision: TargetManifestRevisionId,
    /// Exact ScheduleIR identity.
    pub schedule_hash: ScheduleHash,
    /// Anchored ScheduleIR plan.
    pub schedule_plan: SchedulePlanId,
    /// Anchored ScheduleIR revision.
    pub schedule_revision: ScheduleRevisionId,
}

/// Exact one-dimensional extent encoded by the CPU package.
#[derive(Debug)]
pub enum CpuExtent {
    /// Fully static element count.
    Static {
        /// Exact non-negative element count.
        value: u64,
    },
    /// Runtime dimension inferred and checked from input bindings.
    Symbol {
        /// Stable symbolic dimension name.
        name: String,
    },
}

/// Model of an extent.
pub enum ExtentV {
    /// Static count.
    Static(u64),
    /// Symbolic dimension.
    Symbol(Seq<char>),
}

impl View for CpuExtent {
    type V = ExtentV;

    open spec fn view(&self) -> ExtentV {
        match self {
            CpuExtent::Static { value } => ExtentV::Static(*value),
            CpuExtent::Symbol { name } => ExtentV::Symbol(name@),
        }
    }
}

impl CpuExtent {
    /// Copies the extent.
    pub fn copy(&self) -> (r: Self)
        ensures
            r@ == self@,
    {
        match self {
            CpuExtent::Static { value } => CpuExtent::Static { value: *value },
            CpuExtent::Symbol { name } => CpuExtent::Symbol { name: name.clone() },
        }
    }

    /// Structural equality.
    pub fn same(&self, other: &Self) -> (r: bool)
        ensures
            r == (self@ == other@),
    {
        match (self, other) {
            (CpuExtent::Static { value: a }, CpuExtent::Static { value: b }) => *a == *b,
            (CpuExtent::Symbol { name: a }, CpuExtent::Symbol { name: b }) => str_eq(a.as_str(), b.as_str()),
            _ => false,
        }
    }
}

/// Runtime value kind accepted by one binding or register.
#[derive(Clone, Copy, Debug, PartialEq, Eq, Structural)]
pub enum CpuValueType {
    /// IEEE-754 binary32 scalar.
    F32,
    /// Dense one-dimensional IEEE-754 binary32 tensor.
    F32Tensor1d,
}

/// One ordered external input binding.
#[derive(Debug)]
pub struct CpuBinding {
    /// Stable external parameter name.
    pub name: String,
    /// Canonical bytecode register populated before execution.
    pub register: u32,
    /// Exact runtime value kind.
    pub value_type: CpuValueType,
    /// Tensor extent, absent for scalar bindings.
    pub extent: Option<CpuExtent>,
}

/// One ordered canonical f32 constant.
#[derive(Debug)]
pub struct CpuConstant {
    /// Zero-based constant table index.
    pub index: u32,
    /// Exact lowercase IEEE-754 binary32 bits (`0x` plus eight hex digits).
    pub bits: String,
}

/// Operand inside a scalar elementwise function.
#[derive(Clone, Copy, Debug, PartialEq, Eq, Structural)]
pub enum CpuScalarOperand {
    /// Elementwise function argument.
    Argument {
        /// Zero-based argument index.
        index: u32,
    },
    /// Earlier scalar local result.
    Local {
        /// Zero-based local register.
        register: u32,
    },
    /// Scalar top-level bytecode register captured by the function.
    Capture {
        /// Top-level scalar f32 register.
        register: u32,
    },
}

/// Scalar opcode supported by `cpu_scalar_v1` elementwise functions.
#[derive(Clone, Copy, Debug, PartialEq, Eq, Structural)]
pub enum CpuScalarOpcode {
    /// Exact ordered f32 addition.
    AddF32,
    /// Exact ordered f32 multiplication.
    MulF32,
    /// Explicit fused f32 multiply-add.
    FmaF32,
}

/// One ordered scalar function instruction.
#[derive(Debug)]
pub struct CpuScalarInstruction {
    /// Zero-based local result register.
    pub output: u32,
    /// Scalar operation.
    pub opcode: CpuScalarOpcode,
    /// Ordered operands.
    pub operands: Vec<CpuScalarOperand>,
}

/// Closed scalar function used by one map instruction.
#[derive(Debug)]
pub struct CpuScalarFunction {
    /// Number of ordered element arguments.
    pub arguments: u32,
    /// Ordered local instructions.
    pub instructions: Vec<CpuScalarInstruction>,
    /// Returned argument/local/capture value.
    pub result: CpuScalarOperand,
}

/// Portable top-level scalar CPU instruction.
#[derive(Debug)]
pub enum CpuInstruction {
    /// Loads one canonical constant into a scalar register.
    ConstantF32 {
        /// Result register.
        output: u32,
        /// Constant-table index.
        constant: u32,
    },
    /// Adds two scalar f32 registers.
    AddF32 {
        /// Result register.
        output: u32,
        /// Ordered left operand register.
        lhs: u32,
        /// Ordered right operand register.
        rhs: u32,
    },
    /// Multiplies two scalar f32 registers.
    MulF32 {
        /// Result register.
        output: u32,
        /// Ordered left operand register.
        lhs: u32,
        /// Ordered right operand register.
        rhs: u32,
    },
    /// Performs explicit fused multiply-add on scalar f32 registers.
    FmaF32 {
        /// Result register.
        output: u32,
        /// Multiplicand register.
        a: u32,
        /// Multiplier register.
        b: u32,
        /// Addend register.
        c: u32,
    },
    /// Applies a closed scalar function serially to one tensor.
    MapF32 {
        /// Result tensor register.
        output: u32,
        /// Input tensor register.
        input: u32,
        /// Exact serial iteration extent.
        extent: CpuExtent,
        /// Closed scalar element function.
        body: CpuScalarFunction,
    },
    /// Applies a closed scalar function serially to ordered equal-shape tensors.
    ZipMapF32 {
        /// Result tensor register.
        output: u32,
        /// Ordered input tensor registers.
        inputs: Vec<u32>,
        /// Exact serial iteration extent.
        extent: CpuExtent,
        /// Closed scalar element function.
        body: CpuScalarFunction,
    },
}

/// The result register defined by an instruction.
pub open spec fn instruction_output(i: CpuInstruction) -> u32 {
    match i {
        CpuInstruction::ConstantF32 { output, .. } => output,
        CpuInstruction::AddF32 { output, .. } => output,
        CpuInstruction::MulF32 { output, .. } => output,
        CpuInstruction::FmaF32 { output, .. } => output,
        CpuInstruction::MapF32 { output, .. } => output,
        CpuInstruction::ZipMapF32 { output, .. } => output,
    }
}

impl CpuInstruction {
    /// Returns the result register defined by this instruction.
    pub fn output(&self) -> (r: u32)
        ensures
            r == instruction_output(*self),
    {
        match self {
            CpuInstruction::ConstantF32 { output, .. } => *output,
            CpuInstruction::AddF32 { output, .. } => *output,
            CpuInstruction::MulF32 { output, .. } => *output,
            CpuInstruction::FmaF32 { output, .. } => *output,
            CpuInstruction::MapF32 { output, .. } => *output,
            CpuInstruction::ZipMapF32 { output, .. } => *output,
        }
    }
}

/// One deterministic bytecode entry function.
#[derive(Debug)]
pub struct CpuFunction {
    /// Stable function name; v1 contains exactly `main`.
    pub name: String,
    /// Total register count after all bindings and instructions.
    pub register_count: u32,
    /// Ordered bytecode instructions.
    pub instructions: Vec<CpuInstruction>,
}

/// One named output mapping.
#[derive(Debug)]
pub struct CpuOutput {
    /// Stable external output name.
    pub name: String,
    /// Bytecode register returned for this output.
    pub register: u32,
    /// Exact output type.
    pub value_type: CpuValueType,
}

/// Lifecycle state of one CPU package.
#[derive(Clone, Copy, Debug, PartialEq, Eq, Structural)]
pub enum CpuArtifactStatus {
    /// Compiler lowering completed and structural validation passed.
    Validated,
}

/// Compiler-owned structural proof from one schedule to one CPU package.
#[derive(Debug)]
pub struct CpuArtifactCertificate {
    /// Stable proof relation.
    pub relation: String,
    /// Anchored exact schedule identity.
    pub schedule_hash: ScheduleHash,
    /// Exact CPU artifact identity.
    pub cpu_artifact_hash: CpuArtifactHash,
    /// Ordered verified conditions.
    pub conditions: Vec<String>,
    /// Structural validator version.
    pub validator_version: u32,
}

/// Deterministic portable scalar CPU package.
#[derive(Debug)]
pub struct CpuArtifactPackage {
    /// Compiler-assigned content identity.
    pub id: CpuArtifactId,
    /// Stable package discriminator.
    pub format: String,
    /// Portable bytecode version.
    pub format_version: u32,
    /// Stable compiler-owned target profile.
    pub target_profile: String,
    /// Exact compiler pipeline anchors.
    pub anchor: CpuArtifactAnchor,
    /// Separate CPU compiler build identity.
    pub compiler_build_hash: CpuCompilerBuildHash,
    /// Ordered external bindings.
    pub bindings: Vec<CpuBinding>,
    /// Ordered canonical constants.
    pub constants: Vec<CpuConstant>,
    /// Ordered bytecode functions.
    pub functions: Vec<CpuFunction>,
    /// Ordered named outputs.
    pub outputs: Vec<CpuOutput>,
    /// Offline validation state.
    pub status: CpuArtifactStatus,
    /// Independent exact package hash.
    pub cpu_artifact_hash: CpuArtifactHash,
    /// Compiler-owned structural certificate.
    pub certificate: CpuArtifactCertificate,
}

/// Trusted lowering result before compiler-owned identity and proof publication.
#[derive(Debug)]
pub struct CpuArtifactDraft {
    /// Exact compiler pipeline anchors.
    pub anchor: CpuArtifactAnchor,
    /// Ordered external bindings.
    pub bindings: Vec<CpuBinding>,
    /// Ordered canonical constants.
    pub constants: Vec<CpuConstant>,
    /// Ordered bytecode functions.
    pub functions: Vec<CpuFunction>,
    /// Ordered named outputs.
    pub outputs: Vec<CpuOutput>,
}

fn cpu_error(code: ErrorCode, message: &str) -> (r: AgentError)
    ensures
        r.code == code,
{
    AgentError::new(code, message)
}

// ---------------------------------------------------------------------------
// The register file built up while checking a package.

/// One register: its number, value type and, for tensors, extent.
pub type RegEntry = (u32, CpuValueType, Option<ExtentV>);

/// The type and extent of register `r`, from its latest entry.
pub open spec fn reg_lookup(rf: Seq<RegEntry>, r: u32) -> Option<(CpuValueType, Option<ExtentV>)>
    decreases rf.len(),
{
    if rf.len() == 0 {
        None
    } else if rf.last().0 == r {
        Some((rf.last().1, rf.last().2))
    } else {
        reg_lookup(rf.drop_last(), r)
    }
}

/// Model of an optional extent.
pub open spec fn opt_extent(e: Option<CpuExtent>) -> Option<ExtentV> {
    match e {
        Some(x) => Some(x@),
        None => None,
    }
}

/// Model of the register file.
pub open spec fn rf_view(rf: Seq<(u32, CpuValueType, Option<CpuExtent>)>) -> Seq<RegEntry> {
    rf.map_values(|e: (u32, CpuValueType, Option<CpuExtent>)| (e.0, e.1, opt_extent(e.2)))
}

proof fn lemma_lookup_absent(rf: Seq<RegEntry>, r: u32)
    requires
        forall|i: int| 0 <= i < rf.len() ==> (#[trigger] rf[i]).0 != r,
    ensures
        reg_lookup(rf, r) is None,
    decreases rf.len(),
{
    if rf.len() > 0 {
        assert(rf.last() == rf[rf.len() - 1]);
        lemma_lookup_absent(rf.drop_last(), r);
    }
}

proof fn lemma_lookup_present(rf: Seq<RegEntry>, r: u32, i: int)
    requires
        0 <= i < rf.len(),
        rf[i].0 == r,
    ensures
        reg_lookup(rf, r) is Some,
    decreases rf.len(),
{
    if i < rf.len() - 1 {
        if rf.last().0 != r {
            assert(rf.drop_last()[i] == rf[i]);
            lemma_lookup_present(rf.drop_last(), r, i);
        }
    }
}

fn lookup_register(rf: &Vec<(u32, CpuValueType, Option<CpuExtent>)>, r: u32) -> (res: Option<(CpuValueType, Option<CpuExtent>)>)
    ensures
        match reg_lookup(rf_view(rf@), r) {
            Some((t, e)) => res matches Some(x) && x.0 == t && opt_extent(x.1) == e,
            None => res is None,
        },
{
    let ghost full = rf_view(rf@);
    let mut i: usize = rf.len();
    assert(full.take(rf@.len() as int) =~= full);
    while i > 0
        invariant
            i <= rf@.len(),
            full == rf_view(rf@),
            reg_lookup(full, r) == reg_lookup(full.take(i as int), r),
        decreases i,
    {
        let ghost pre = full.take(i as int);
        assert(pre.drop_last() =~= full.take(i - 1));
        assert(pre.last() == full[i - 1]);
        let e = &rf[i - 1];
        if e.0 == r {
            let ext = match &e.2 {
                Some(x) => Some(x.copy()),
                None => None,
            };
            return Some((e.1, ext));
        }
        i = i - 1;
    }
    assert(full.take(0) =~= Seq::<RegEntry>::empty());
    None
}

// ---------------------------------------------------------------------------
// Structural checks.

/// Whether the package header names this format, profile, build and lifecycle.
pub open spec fn header_valid(p: CpuArtifactPackage) -> bool {
    &&& p.format@ == "agentir.cpu.scalar.package"@
    &&& p.format_version == CPU_ARTIFACT_FORMAT_VERSION
    &&& p.target_profile@ == "cpu_scalar_v1"@
    &&& p.compiler_build_hash.0@ == spec_cpu_compiler_build_hash()
    &&& p.status == CpuArtifactStatus::Validated
}

/// A symbolic extent has a name.
pub open spec fn extent_valid(e: ExtentV) -> bool {
    match e {
        ExtentV::Static(_) => true,
        ExtentV::Symbol(name) => name.len() > 0,
    }
}

fn valid_extent(extent: &CpuExtent) -> (r: bool)
    ensures
        r == extent_valid(extent@),
{
    match extent {
        CpuExtent::Static { .. } => true,
        CpuExtent::Symbol { name } => name.unicode_len() > 0,
    }
}

/// Scalar bindings carry no extent; tensor bindings a valid one.
pub open spec fn binding_typed(b: CpuBinding) -> bool {
    match b.value_type {
        CpuValueType::F32 => b.extent is None,
        CpuValueType::F32Tensor1d => b.extent matches Some(e) && extent_valid(e@),
    }
}

/// Bindings are named, strictly name-ordered, typed, and on distinct registers.
pub open spec fn bindings_valid(bs: Seq<CpuBinding>) -> bool {
    &&& forall|i: int| 0 <= i < bs.len() ==> (#[trigger] bs[i]).name@.len() > 0 && binding_typed(bs[i])
    &&& forall|i: int, j: int| 0 <= i < j < bs.len() ==> seq_less((#[trigger] bs[i]).name@, (#[trigger] bs[j]).name@)
    &&& forall|i: int, j: int| 0 <= i < j < bs.len() ==> (#[trigger] bs[i]).register != (#[trigger] bs[j]).register
}

/// The registers the bindings populate.
pub open spec fn binding_registers(bs: Seq<CpuBinding>) -> Seq<RegEntry> {
    bs.map_values(|b: CpuBinding| (b.register, b.value_type, opt_extent(b.extent)))
}

proof fn lemma_lookup_some(rf: Seq<RegEntry>, r: u32)
    requires
        reg_lookup(rf, r) is Some,
    ensures
        exists|k: int| 0 <= k < rf.len() && (#[trigger] rf[k]).0 == r,
    decreases rf.len(),
{
    if rf.last().0 == r {
        assert(rf[rf.len() - 1].0 == r);
    } else {
        lemma_lookup_some(rf.drop_last(), r);
        let k = choose|k: int| 0 <= k < rf.drop_last().len() && (#[trigger] rf.drop_last()[k]).0 == r;
        assert(rf[k] == rf.drop_last()[k]);
    }
}

fn binding_entry_ok(b: &CpuBinding) -> (r: bool)
    ensures
        r == (b.name@.len() > 0 && binding_typed(*b)),
{
    let named = b.name.unicode_len() > 0;
    let typed = match b.value_type {
        CpuValueType::F32 => b.extent.is_none(),
        CpuValueType::F32Tensor1d => match &b.extent {
            Some(e) => valid_extent(e),
            None => false,
        },
    };
    named && typed
}

fn copy_extent(e: &Option<CpuExtent>) -> (r: Option<CpuExtent>)
    ensures
        opt_extent(r) == opt_extent(*e),
{
    match e {
        Some(x) => Some(x.copy()),
        None => None,
    }
}

/// Whether binding `b` at position `i` may follow the earlier bindings `pre`.
pub open spec fn binding_fits(pre: Seq<CpuBinding>, b: CpuBinding) -> bool {
    &&& b.name@.len() > 0
    &&& binding_typed(b)
    &&& pre.len() > 0 ==> seq_less(pre.last().name@, b.name@)
    &&& forall|j: int| 0 <= j < pre.len() ==> (#[trigger] pre[j]).register != b.register
}

proof fn lemma_bindings_valid_push(pre: Seq<CpuBinding>, b: CpuBinding)
    requires
        bindings_valid(pre),
    ensures
        bindings_valid(pre.push(b)) == binding_fits(pre, b),
{
    let n = pre.push(b);
    if binding_fits(pre, b) {
        assert forall|i: int, j: int| 0 <= i < j < n.len() implies (#[trigger] n[i]).register != (#[trigger] n[j]).register by {
            if j == pre.len() {
                assert(n[i] == pre[i]);
            } else {
                assert(n[i] == pre[i] && n[j] == pre[j]);
            }
        }
        assert forall|i: int, j: int| 0 <= i < j < n.len() implies seq_less((#[trigger] n[i]).name@, (#[trigger] n[j]).name@) by {
            if j < pre.len() {
                assert(n[i] == pre[i] && n[j] == pre[j]);
            } else {
                assert(n[i] == pre[i]);
                if i < pre.len() - 1 {
                    assert(seq_less(pre[i].name@, pre[pre.len() - 1].name@));
                    lemma_less_transitive(pre[i].name@, pre.last().name@, b.name@);
                }
            }
        }
        assert forall|i: int| 0 <= i < n.len() implies (#[trigger] n[i]).name@.len() > 0 && binding_typed(n[i]) by {
            if i < pre.len() {
                assert(n[i] == pre[i]);
            }
        }
    } else if bindings_valid(n) {
        let last = pre.len() as int;
        assert(n[last] == b);
        if pre.len() > 0 {
            assert(n[last - 1] == pre.last());
        }
        assert forall|j: int| 0 <= j < pre.len() implies (#[trigger] pre[j]).register != b.register by {
            assert(n[j] == pre[j]);
        }
    }
}

proof fn lemma_lookup_registers(pre: Seq<CpuBinding>, r: u32)
    ensures
        (reg_lookup(binding_registers(pre), r) is Some) == (exists|j: int| 0 <= j < pre.len() && (#[trigger] pre[j]).register == r),
{
    let rf = binding_registers(pre);
    if reg_lookup(rf, r) is Some {
        lemma_lookup_some(rf, r);
        let k = choose|k: int| 0 <= k < rf.len() && (#[trigger] rf[k]).0 == r;
        assert(pre[k].register == r);
    }
    if exists|j: int| 0 <= j < pre.len() && (#[trigger] pre[j]).register == r {
        let j = choose|j: int| 0 <= j < pre.len() && (#[trigger] pre[j]).register == r;
        assert(rf[j].0 == r);
        lemma_lookup_present(rf, r, j);
    }
}

fn check_binding_fits(rf: &Vec<(u32, CpuValueType, Option<CpuExtent>)>, bindings: &Vec<CpuBinding>, i: usize) -> (r: bool)
    requires
        i < bindings@.len(),
        rf_view(rf@) == binding_registers(bindings@.take(i as int)),
    ensures
        r == binding_fits(bindings@.take(i as int), bindings@[i as int]),
{
    let b = &bindings[i];
    let ghost pre = bindings@.take(i as int);
    let entry_ok = binding_entry_ok(b);
    let ordered = i == 0 || str_less(bindings[i - 1].name.as_str(), b.name.as_str());
    let fresh = lookup_register(rf, b.register).is_none();
    proof {
        lemma_lookup_registers(pre, b.register);
        if i > 0 {
            assert(pre.last() == bindings@[i - 1]);
        }
        if !fresh {
            let j = choose|j: int| 0 <= j < pre.len() && (#[trigger] pre[j]).register == b.register;
            assert(pre[j].register == b.register);
        }
    }
    entry_ok && ordered && fresh
}

#[verifier::spinoff_prover]
fn check_bindings(bindings: &Vec<CpuBinding>) -> (r: Option<Vec<(u32, CpuValueType, Option<CpuExtent>)>>)
    ensures
        bindings_valid(bindings@) <==> r is Some,
        r matches Some(rf) ==> rf_view(rf@) == binding_registers(bindings@),
{
    let ghost bs = bindings@;
    let mut rf: Vec<(u32, CpuValueType, Option<CpuExtent>)> = Vec::new();
    let mut i: usize = 0;
    assert(rf_view(rf@) =~= binding_registers(bs.take(0)));
    while i < bindings.len()
        invariant
            bs == bindings@,
            i <= bs.len(),
            rf_view(rf@) == binding_registers(bs.take(i as int)),
            bindings_valid(bs.take(i as int)),
        decreases bindings.len() - i,
    {
        let ghost pre = bs.take(i as int);
        proof {
            assert(bs.take(i + 1) =~= pre.push(bs[i as int]));
            lemma_bindings_valid_push(pre, bs[i as int]);
        }
        if !check_binding_fits(&rf, bindings, i) {
            proof {
                if bindings_valid(bs) {
                    assert(bindings_valid(bs.take(i + 1))) by {
                        let t = bs.take(i + 1);
                        assert forall|x: int, y: int| 0 <= x < y < t.len() implies (#[trigger] t[x]).register != (#[trigger] t[y]).register by {
                            assert(t[x] == bs[x] && t[y] == bs[y]);
                        }
                        assert forall|x: int, y: int| 0 <= x < y < t.len() implies seq_less((#[trigger] t[x]).name@, (#[trigger] t[y]).name@) by {
                            assert(t[x] == bs[x] && t[y] == bs[y]);
                        }
                        assert forall|x: int| 0 <= x < t.len() implies (#[trigger] t[x]).name@.len() > 0 && binding_typed(t[x]) by {
                            assert(t[x] == bs[x]);
                        }
                    }
                }
            }
            return None;
        }
        let b = &bindings[i];
        let ext = copy_extent(&b.extent);
        let ghost before = rf@;
        rf.push((b.register, b.value_type, ext));
        proof {
            let e: RegEntry = (b.register, b.value_type, opt_extent(b.extent));
            assert(*b == bs[i as int]);
            assert(rf_view(rf@) =~= rf_view(before).push(e));
            assert(binding_registers(bs.take(i + 1)) =~= binding_registers(pre).push(e));
        }
        i = i + 1;
    }
    assert(bs.take(bs.len() as int) =~= bs);
    Some(rf)
}

/// Whether a character is a lowercase hexadecimal digit.
pub open spec fn is_hex_digit(c: char) -> bool {
    ('0' <= c && c <= '9') || ('a' <= c && c <= 'f')
}

/// Canonical binary32 bits: `0x` followed by eight lowercase hex digits.
pub open spec fn canonical_bits(s: Seq<char>) -> bool {
    &&& s.len() == 10
    &&& s[0] == '0'
    &&& s[1] == 'x'
    &&& forall|k: int| 2 <= k < 10 ==> is_hex_digit(#[trigger] s[k])
}

/// The constant table is contiguous from zero with canonical bits.
pub open spec fn constants_valid(cs: Seq<CpuConstant>) -> bool {
    forall|i: int| 0 <= i < cs.len() ==> (#[trigger] cs[i]).index == i && canonical_bits(cs[i].bits@)
}

fn bits_canonical(s: &str) -> (r: bool)
    ensures
        r == canonical_bits(s@),
{
    if s.unicode_len() != 10 {
        return false;
    }
    if s.get_char(0) != '0' || s.get_char(1) != 'x' {
        return false;
    }
    let mut k: usize = 2;
    while k < 10
        invariant
            s@.len() == 10,
            2 <= k <= 10,
            forall|t: int| 2 <= t < k ==> is_hex_digit(#[trigger] s@[t]),
        decreases 10 - k,
    {
        let c = s.get_char(k);
        if !(('0' <= c && c <= '9') || ('a' <= c && c <= 'f')) {
            return false;
        }
        k = k + 1;
    }
    true
}

fn check_constants(constants: &Vec<CpuConstant>) -> (r: bool)
    ensures
        r == constants_valid(constants@),
{
    let mut i: usize = 0;
    while i < constants.len()
        invariant
            i <= constants@.len(),
            forall|j: int| 0 <= j < i ==> (#[trigger] constants@[j]).index == j && canonical_bits(constants@[j].bits@),
        decreases constants.len() - i,
    {
        let c = &constants[i];
        if i > u32::MAX as usize || c.index != i as u32 || !bits_canonical(c.bits.as_str()) {
            return false;
        }
        i = i + 1;
    }
    true
}

/// `n` saturated at `u32::MAX`.
pub open spec fn cap_u32(n: int) -> u32 {
    if n > u32::MAX {
        u32::MAX
    } else {
        n as u32
    }
}

fn capped_u32(n: usize) -> (r: u32)
    ensures
        r == cap_u32(n as int),
{
    if n > u32::MAX as usize {
        u32::MAX
    } else {
        n as u32
    }
}

/// Whether register `r` holds an f32 scalar.
pub open spec fn is_f32(rf: Seq<RegEntry>, r: u32) -> bool {
    reg_lookup(rf, r) matches Some((t, _)) && t == CpuValueType::F32
}

/// Whether register `r` holds a tensor of extent `e`.
pub open spec fn is_tensor_of(rf: Seq<RegEntry>, r: u32, e: ExtentV) -> bool {
    reg_lookup(rf, r) matches Some((t, x)) && t == CpuValueType::F32Tensor1d && x == Some(e)
}

/// Whether a scalar operand is available.
pub open spec fn operand_ok(o: CpuScalarOperand, arguments: u32, locals: u32, rf: Seq<RegEntry>) -> bool {
    match o {
        CpuScalarOperand::Argument { index } => index < arguments,
        CpuScalarOperand::Local { register } => register < locals,
        CpuScalarOperand::Capture { register } => is_f32(rf, register),
    }
}

fn check_scalar_operand(operand: &CpuScalarOperand, arguments: u32, locals: u32, rf: &Vec<(u32, CpuValueType, Option<CpuExtent>)>) -> (r: bool)
    ensures
        r == operand_ok(*operand, arguments, locals, rf_view(rf@)),
{
    match operand {
        CpuScalarOperand::Argument { index } => *index < arguments,
        CpuScalarOperand::Local { register } => *register < locals,
        CpuScalarOperand::Capture { register } => match lookup_register(rf, *register) {
            Some((t, _)) => t == CpuValueType::F32,
            None => false,
        },
    }
}

/// The operand count of a scalar opcode.
pub open spec fn arity(op: CpuScalarOpcode) -> nat {
    match op {
        CpuScalarOpcode::AddF32 => 2,
        CpuScalarOpcode::MulF32 => 2,
        CpuScalarOpcode::FmaF32 => 3,
    }
}

/// Instruction `ins` at position `i` of a scalar function is ordered, of the
/// right arity, and reads only available operands.
pub open spec fn scalar_instruction_valid(ins: CpuScalarInstruction, i: int, arguments: u32, rf: Seq<RegEntry>) -> bool {
    &&& ins.output == cap_u32(i)
    &&& ins.operands@.len() == arity(ins.opcode)
    &&& forall|k: int| 0 <= k < ins.operands@.len() ==> operand_ok(#[trigger] ins.operands@[k], arguments, cap_u32(i), rf)
}

/// A scalar function takes `expected` arguments, is ordered and closed, and
/// returns an available value.
pub open spec fn scalar_function_valid(body: CpuScalarFunction, expected: u32, rf: Seq<RegEntry>) -> bool {
    &&& body.arguments == expected
    &&& forall|i: int| 0 <= i < body.instructions@.len() ==>
        scalar_instruction_valid(#[trigger] body.instructions@[i], i, body.arguments, rf)
    &&& operand_ok(body.result, body.arguments, cap_u32(body.instructions@.len() as int), rf)
}

fn verify_scalar_function(body: &CpuScalarFunction, expected_arguments: u32, rf: &Vec<(u32, CpuValueType, Option<CpuExtent>)>) -> (r: bool)
    ensures
        r == scalar_function_valid(*body, expected_arguments, rf_view(rf@)),
{
    if body.arguments != expected_arguments {
        return false;
    }
    let mut i: usize = 0;
    while i < body.instructions.len()
        invariant
            i <= body.instructions@.len(),
            forall|j: int| 0 <= j < i ==> scalar_instruction_valid(#[trigger] body.instructions@[j], j, body.arguments, rf_view(rf@)),
        decreases body.instructions.len() - i,
    {
        let ins = &body.instructions[i];
        let expected = capped_u32(i);
        let arity: usize = match ins.opcode {
            CpuScalarOpcode::AddF32 => 2,
            CpuScalarOpcode::MulF32 => 2,
            CpuScalarOpcode::FmaF32 => 3,
        };
        if ins.output != expected || ins.operands.len() != arity {
            assert(!scalar_instruction_valid(body.instructions@[i as int], i as int, body.arguments, rf_view(rf@)));
            return false;
        }
        let mut k: usize = 0;
        while k < ins.operands.len()
            invariant
                i < body.instructions@.len(),
                *ins == body.instructions@[i as int],
                expected == cap_u32(i as int),
                k <= ins.operands@.len(),
                forall|t: int| 0 <= t < k ==> operand_ok(#[trigger] ins.operands@[t], body.arguments, expected, rf_view(rf@)),
            decreases ins.operands.len() - k,
        {
            if !check_scalar_operand(&ins.operands[k], body.arguments, expected, rf) {
                assert(!scalar_instruction_valid(body.instructions@[i as int], i as int, body.arguments, rf_view(rf@)));
                return false;
            }
            k = k + 1;
        }
        i = i + 1;
    }
    let locals = capped_u32(body.instructions.len());
    check_scalar_operand(&body.result, body.arguments, locals, rf)
}

fn register_is_f32(rf: &Vec<(u32, CpuValueType, Option<CpuExtent>)>, r: u32) -> (b: bool)
    ensures
        b == is_f32(rf_view(rf@), r),
{
    match lookup_register(rf, r) {
        Some((t, _)) => t == CpuValueType::F32,
        None => false,
    }
}

fn register_is_tensor_of(rf: &Vec<(u32, CpuValueType, Option<CpuExtent>)>, r: u32, extent: &CpuExtent) -> (b: bool)
    ensures
        b == is_tensor_of(rf_view(rf@), r, extent@),
{
    match lookup_register(rf, r) {
        Some((t, Some(e))) => t == CpuValueType::F32Tensor1d && e.same(extent),
        _ => false,
    }
}

/// The type and extent of an instruction's result, when its operands are
/// available and well typed.
pub open spec fn instruction_result(ins: CpuInstruction, constants: nat, rf: Seq<RegEntry>) -> Option<(CpuValueType, Option<ExtentV>)> {
    match ins {
        CpuInstruction::ConstantF32 { constant, .. } => if constant < constants {
            Some((CpuValueType::F32, None))
        } else {
            None
        },
        CpuInstruction::AddF32 { lhs, rhs, .. } => if is_f32(rf, lhs) && is_f32(rf, rhs) {
            Some((CpuValueType::F32, None))
        } else {
            None
        },
        CpuInstruction::MulF32 { lhs, rhs, .. } => if is_f32(rf, lhs) && is_f32(rf, rhs) {
            Some((CpuValueType::F32, None))
        } else {
            None
        },
        CpuInstruction::FmaF32 { a, b, c, .. } => if is_f32(rf, a) && is_f32(rf, b) && is_f32(rf, c) {
            Some((CpuValueType::F32, None))
        } else {
            None
        },
        CpuInstruction::MapF32 { input, extent, body, .. } => if extent_valid(extent@) && is_tensor_of(rf, input, extent@)
            && scalar_function_valid(body, 1, rf) {
            Some((CpuValueType::F32Tensor1d, Some(extent@)))
        } else {
            None
        },
        CpuInstruction::ZipMapF32 { inputs, extent, body, .. } => if inputs@.len() > 0 && extent_valid(extent@)
            && (forall|k: int| 0 <= k < inputs@.len() ==> is_tensor_of(rf, #[trigger] inputs@[k], extent@))
            && scalar_function_valid(body, cap_u32(inputs@.len() as int), rf) {
            Some((CpuValueType::F32Tensor1d, Some(extent@)))
        } else {
            None
        },
    }
}

/// Runs the instructions over the register file: each defines a fresh
/// register from available, well-typed operands.
pub open spec fn run_instructions(ins: Seq<CpuInstruction>, constants: nat, rf: Seq<RegEntry>) -> Option<Seq<RegEntry>>
    decreases ins.len(),
{
    if ins.len() == 0 {
        Some(rf)
    } else {
        match run_instructions(ins.drop_last(), constants, rf) {
            None => None,
            Some(r) => if reg_lookup(r, instruction_output(ins.last())) is Some {
                None
            } else {
                match instruction_result(ins.last(), constants, r) {
                    None => None,
                    Some((t, e)) => Some(r.push((instruction_output(ins.last()), t, e))),
                }
            },
        }
    }
}

proof fn lemma_run_prefix_fails(ins: Seq<CpuInstruction>, constants: nat, rf: Seq<RegEntry>, k: int)
    requires
        0 <= k <= ins.len(),
        run_instructions(ins.take(k), constants, rf) is None,
    ensures
        run_instructions(ins, constants, rf) is None,
    decreases ins.len() - k,
{
    if k == ins.len() {
        assert(ins.take(k) =~= ins);
    } else {
        assert(ins.take(k + 1).drop_last() =~= ins.take(k));
        lemma_run_prefix_fails(ins, constants, rf, k + 1);
    }
}

fn all_tensors_of(rf: &Vec<(u32, CpuValueType, Option<CpuExtent>)>, inputs: &Vec<u32>, extent: &CpuExtent) -> (r: bool)
    ensures
        r == (forall|k: int| 0 <= k < inputs@.len() ==> is_tensor_of(rf_view(rf@), #[trigger] inputs@[k], extent@)),
{
    let mut k: usize = 0;
    while k < inputs.len()
        invariant
            k <= inputs@.len(),
            forall|t: int| 0 <= t < k ==> is_tensor_of(rf_view(rf@), #[trigger] inputs@[t], extent@),
        decreases inputs.len() - k,
    {
        if !register_is_tensor_of(rf, inputs[k], extent) {
            return false;
        }
        k = k + 1;
    }
    true
}

fn instruction_step(ins: &CpuInstruction, constants: usize, rf: &Vec<(u32, CpuValueType, Option<CpuExtent>)>) -> (r: Option<(CpuValueType, Option<CpuExtent>)>)
    ensures
        match instruction_result(*ins, constants as nat, rf_view(rf@)) {
            Some((t, e)) => r matches Some(x) && x.0 == t && opt_extent(x.1) == e,
            None => r is None,
        },
{
    match ins {
        CpuInstruction::ConstantF32 { constant, .. } => {
            if (*constant as usize) < constants {
                Some((CpuValueType::F32, None))
            } else {
                None
            }
        },
        CpuInstruction::AddF32 { lhs, rhs, .. } => {
            if register_is_f32(rf, *lhs) && register_is_f32(rf, *rhs) {
                Some((CpuValueType::F32, None))
            } else {
                None
            }
        },
        CpuInstruction::MulF32 { lhs, rhs, .. } => {
            if register_is_f32(rf, *lhs) && register_is_f32(rf, *rhs) {
                Some((CpuValueType::F32, None))
            } else {
                None
            }
        },
        CpuInstruction::FmaF32 { a, b, c, .. } => {
            if register_is_f32(rf, *a) && register_is_f32(rf, *b) && register_is_f32(rf, *c) {
                Some((CpuValueType::F32, None))
            } else {
                None
            }
        },
        CpuInstruction::MapF32 { input, extent, body, .. } => {
            if valid_extent(extent) && register_is_tensor_of(rf, *input, extent) && verify_scalar_function(body, 1, rf) {
                Some((CpuValueType::F32Tensor1d, Some(extent.copy())))
            } else {
                None
            }
        },
        CpuInstruction::ZipMapF32 { inputs, extent, body, .. } => {
            if inputs.len() == 0 || !valid_extent(extent) {
                return None;
            }
            if !all_tensors_of(rf, inputs, extent) {
                return None;
            }
            if verify_scalar_function(body, capped_u32(inputs.len()), rf) {
                Some((CpuValueType::F32Tensor1d, Some(extent.copy())))
            } else {
                None
            }
        },
    }
}

/// The register file is dense: exactly the registers below `count`.
pub open spec fn registers_dense(rf: Seq<RegEntry>, count: u32) -> bool {
    &&& cap_u32(rf.len() as int) == count
    &&& forall|i: int| 0 <= i < rf.len() ==> (#[trigger] rf[i]).0 < count
    &&& forall|r: u32| r < count ==> (#[trigger] reg_lookup(rf, r)) is Some
}

fn check_dense(rf: &Vec<(u32, CpuValueType, Option<CpuExtent>)>, count: u32) -> (r: bool)
    ensures
        r == registers_dense(rf_view(rf@), count),
{
    if capped_u32(rf.len()) != count {
        return false;
    }
    let mut i: usize = 0;
    while i < rf.len()
        invariant
            i <= rf@.len(),
            forall|j: int| 0 <= j < i ==> (#[trigger] rf_view(rf@)[j]).0 < count,
        decreases rf.len() - i,
    {
        if rf[i].0 >= count {
            assert(rf_view(rf@)[i as int].0 >= count);
            return false;
        }
        i = i + 1;
    }
    let mut r: u32 = 0;
    while r < count
        invariant
            r <= count,
            forall|x: u32| x < r ==> (#[trigger] reg_lookup(rf_view(rf@), x)) is Some,
        decreases count - r,
    {
        if lookup_register(rf, r).is_none() {
            return false;
        }
        r = r + 1;
    }
    true
}

/// Outputs are named, strictly name-ordered, and typed by their registers.
pub open spec fn outputs_valid(outs: Seq<CpuOutput>, rf: Seq<RegEntry>) -> bool {
    &&& forall|i: int| 0 <= i < outs.len() ==> (#[trigger] outs[i]).name@.len() > 0
        && (reg_lookup(rf, outs[i].register) matches Some((t, _)) && t == outs[i].value_type)
    &&& forall|i: int, j: int| 0 <= i < j < outs.len() ==> seq_less((#[trigger] outs[i]).name@, (#[trigger] outs[j]).name@)
}

#[verifier::spinoff_prover]
fn check_outputs(outputs: &Vec<CpuOutput>, rf: &Vec<(u32, CpuValueType, Option<CpuExtent>)>) -> (r: bool)
    ensures
        r == outputs_valid(outputs@, rf_view(rf@)),
{
    let mut i: usize = 0;
    while i < outputs.len()
        invariant
            i <= outputs@.len(),
            forall|j: int| 0 <= j < i ==> (#[trigger] outputs@[j]).name@.len() > 0
                && (reg_lookup(rf_view(rf@), outputs@[j].register) matches Some((t, _)) && t == outputs@[j].value_type),
            forall|j: int, k: int| 0 <= j < k < i ==> seq_less((#[trigger] outputs@[j]).name@, (#[trigger] outputs@[k]).name@),
        decreases outputs.len() - i,
    {
        let o = &outputs[i];
        if o.name.unicode_len() == 0 {
            return false;
        }
        if i > 0 && !str_less(outputs[i - 1].name.as_str(), o.name.as_str()) {
            assert(!seq_less(outputs@[i - 1].name@, outputs@[i as int].name@));
            return false;
        }
        proof {
            assert forall|j: int| 0 <= j < i implies seq_less((#[trigger] outputs@[j]).name@, outputs@[i as int].name@) by {
                if j < i - 1 {
                    lemma_less_transitive(outputs@[j].name@, outputs@[i - 1].name@, outputs@[i as int].name@);
                }
            }
        }
        let typed = match lookup_register(rf, o.register) {
            Some((t, _)) => t == o.value_type,
            None => false,
        };
        if !typed {
            return false;
        }
        i = i + 1;
    }
    true
}

/// The ordered conditions that the structural certificate proves.
pub open spec fn certificate_conditions() -> Seq<Seq<char>> {
    seq![
        "immutable_stage_1_4_anchor_chain_verified"@,
        "serial_schedule_coverage_preserved"@,
        "one_dimensional_f32_binding_types_verified"@,
        "ordered_scalar_bytecode_lowering_verified"@,
        "compiler_owned_bounds_validation_retained"@,
    ]
}

/// The certificate binds the package to its schedule.
pub open spec fn certificate_valid(p: CpuArtifactPackage) -> bool {
    &&& p.outputs@.len() > 0
    &&& p.certificate.relation@ == "cpu_artifact_equivalent_to_schedule"@
    &&& p.certificate.schedule_hash.0@ == p.anchor.schedule_hash.0@
    &&& p.certificate.cpu_artifact_hash.0@ == p.cpu_artifact_hash.0@
    &&& p.certificate.validator_version == CPU_ARTIFACT_VALIDATOR_VERSION
    &&& p.certificate.conditions@.map_values(|s: String| s@) == certificate_conditions()
}

fn conditions_match(conditions: &Vec<String>) -> (r: bool)
    ensures
        r == (conditions@.map_values(|s: String| s@) == certificate_conditions()),
{
    let ghost cv = conditions@.map_values(|s: String| s@);
    if conditions.len() != 5 {
        assert(cv.len() != certificate_conditions().len());
        return false;
    }
    let ok = str_eq(conditions[0].as_str(), "immutable_stage_1_4_anchor_chain_verified")
        && str_eq(conditions[1].as_str(), "serial_schedule_coverage_preserved")
        && str_eq(conditions[2].as_str(), "one_dimensional_f32_binding_types_verified")
        && str_eq(conditions[3].as_str(), "ordered_scalar_bytecode_lowering_verified")
        && str_eq(conditions[4].as_str(), "compiler_owned_bounds_validation_retained");
    proof {
        if ok {
            assert(cv =~= certificate_conditions());
        } else if cv == certificate_conditions() {
            assert(cv[0] == certificate_conditions()[0]);
            assert(cv[1] == certificate_conditions()[1]);
            assert(cv[2] == certificate_conditions()[2]);
            assert(cv[3] == certificate_conditions()[3]);
            assert(cv[4] == certificate_conditions()[4]);
        }
    }
    ok
}

fn check_certificate(package: &CpuArtifactPackage) -> (r: bool)
    ensures
        r == certificate_valid(*package),
{
    package.outputs.len() > 0
        && str_eq(package.certificate.relation.as_str(), "cpu_artifact_equivalent_to_schedule")
        && str_eq(package.certificate.schedule_hash.0.as_str(), package.anchor.schedule_hash.0.as_str())
        && str_eq(package.certificate.cpu_artifact_hash.0.as_str(), package.cpu_artifact_hash.0.as_str())
        && package.certificate.validator_version == CPU_ARTIFACT_VALIDATOR_VERSION
        && conditions_match(&package.certificate.conditions)
}

fn check_header(package: &CpuArtifactPackage) -> (r: bool)
    ensures
        r == header_valid(*package),
{
    let build = cpu_compiler_build_hash();
    str_eq(package.format.as_str(), "agentir.cpu.scalar.package")
        && package.format_version == CPU_ARTIFACT_FORMAT_VERSION
        && str_eq(package.target_profile.as_str(), "cpu_scalar_v1")
        && str_eq(package.compiler_build_hash.0.as_str(), build.0.as_str())
        && package.status == CpuArtifactStatus::Validated
}

/// The verdict of structural CPU package verification, for a package whose
/// canonical semantic bytes are `canonical`: the first failing check.
pub open spec fn cpu_artifact_verdict(p: CpuArtifactPackage, canonical: Seq<u8>) -> Result<(), ErrorCode> {
    if !header_valid(p) || !bindings_valid(p.bindings@) || !constants_valid(p.constants@) {
        Err(ErrorCode::CpuArtifactInvalid)
    } else if p.functions@.len() != 1 || p.functions@[0].name@ != "main"@ {
        Err(ErrorCode::CpuBytecodeUnsupported)
    } else {
        match run_instructions(p.functions@[0].instructions@, p.constants@.len(), binding_registers(p.bindings@)) {
            None => Err(ErrorCode::CpuArtifactInvalid),
            Some(rf) => if !registers_dense(rf, p.functions@[0].register_count) || !outputs_valid(p.outputs@, rf) {
                Err(ErrorCode::CpuArtifactInvalid)
            } else if !certificate_valid(p) {
                Err(ErrorCode::CpuArtifactEquivalenceUnproved)
            } else if spec_cpu_artifact_hash(canonical) != p.cpu_artifact_hash.0@ {
                Err(ErrorCode::CpuArtifactHashMismatch)
            } else if p.id@ != "cpuart-"@ + p.cpu_artifact_hash.0@.subrange(0, 16) {
                Err(ErrorCode::CpuArtifactInvalid)
            } else {
                Ok(())
            },
        }
    }
}

/// Whether register `reg` holds a value of type `t` in register file `rf`:
/// its latest entry has that type.
pub open spec fn holds_type(rf: Seq<RegEntry>, reg: u32, t: CpuValueType) -> bool {
    exists|i: int|
        0 <= i < rf.len() && (#[trigger] rf[i]).0 == reg && rf[i].1 == t && forall|j: int| i < j < rf.len() ==> (#[trigger] rf[j]).0 != reg
}

proof fn lemma_lookup_holds(rf: Seq<RegEntry>, reg: u32)
    requires
        reg_lookup(rf, reg) is Some,
    ensures
        holds_type(rf, reg, (reg_lookup(rf, reg)->0).0),
    decreases rf.len(),
{
    let n = rf.len() as int;
    if rf.last().0 == reg {
        assert(rf[n - 1] == rf.last());
    } else {
        lemma_lookup_holds(rf.drop_last(), reg);
        let t = (reg_lookup(rf, reg)->0).0;
        let i = choose|i: int|
            0 <= i < rf.drop_last().len() && (#[trigger] rf.drop_last()[i]).0 == reg && rf.drop_last()[i].1 == t && forall|j: int|
                i < j < rf.drop_last().len() ==> (#[trigger] rf.drop_last()[j]).0 != reg;
        assert(rf[i] == rf.drop_last()[i]);
        assert forall|j: int| i < j < rf.len() implies (#[trigger] rf[j]).0 != reg by {
            if j < n - 1 {
                assert(rf[j] == rf.drop_last()[j]);
            } else {
                assert(rf[j] == rf.last());
            }
        }
    }
}

/// An accepted CPU package declares every output with the type that its
/// register holds in the register file built by the package's bindings and
/// instructions; an output declared with another type is never accepted.
pub proof fn law_accepted_outputs_are_typed(p: CpuArtifactPackage, canonical: Seq<u8>)
    requires
        cpu_artifact_verdict(p, canonical) is Ok,
    ensures
        run_instructions(p.functions@[0].instructions@, p.constants@.len(), binding_registers(p.bindings@)) matches Some(rf)
            && forall|i: int| 0 <= i < p.outputs@.len() ==> holds_type(rf, (#[trigger] p.outputs@[i]).register, p.outputs@[i].value_type),
{
    let rf = run_instructions(p.functions@[0].instructions@, p.constants@.len(), binding_registers(p.bindings@))->0;
    assert forall|i: int| 0 <= i < p.outputs@.len() implies holds_type(rf, (#[trigger] p.outputs@[i]).register, p.outputs@[i].value_type) by {
        lemma_lookup_holds(rf, p.outputs@[i].register);
    }
}

/// Structurally verifies one portable CPU package without executing bytecode.
/// `canonical` holds the package's canonical semantic bytes.
#[verifier::spinoff_prover]
#[verifier::rlimit(30)]
pub fn verify_cpu_artifact(package: &CpuArtifactPackage, canonical: &[u8]) -> (r: AgentResult<()>)
    ensures
        match cpu_artifact_verdict(*package, canonical@) {
            Ok(()) => r is Ok,
            Err(c) => r matches Err(e) && e.code == c,
        },
{
    let bindings = check_bindings(&package.bindings);
    let constants_ok = check_constants(&package.constants);
    if !check_header(package) || bindings.is_none() || !constants_ok {
        return Err(cpu_error(ErrorCode::CpuArtifactInvalid, "CPU artifact format, profile, build, lifecycle, bindings, or constants are invalid"));
    }
    let mut rf = match bindings {
        Some(rf) => rf,
        None => {
            return Err(cpu_error(ErrorCode::CpuArtifactInvalid, "CPU bindings are not uniquely name-ordered, typed, and registered"));
        },
    };
    if package.functions.len() != 1 || !str_eq(package.functions[0].name.as_str(), "main") {
        return Err(cpu_error(ErrorCode::CpuBytecodeUnsupported, "CPU artifact v1 requires exactly one `main` function"));
    }
    let function = &package.functions[0];
    let ghost ins = function.instructions@;
    let ghost base = binding_registers(package.bindings@);
    let nconst = package.constants.len();
    let mut k: usize = 0;
    assert(ins.take(0) =~= Seq::<CpuInstruction>::empty());
    while k < function.instructions.len()
        invariant
            ins == function.instructions@,
            nconst == package.constants@.len(),
            header_valid(*package),
            bindings_valid(package.bindings@),
            constants_valid(package.constants@),
            package.functions@.len() == 1,
            package.functions@[0].name@ == "main"@,
            *function == package.functions@[0],
            base == binding_registers(package.bindings@),
            k <= ins.len(),
            run_instructions(ins.take(k as int), nconst as nat, base) == Some(rf_view(rf@)),
        decreases function.instructions.len() - k,
    {
        let instruction = &function.instructions[k];
        let output = instruction.output();
        proof {
            assert(ins.take(k + 1).drop_last() =~= ins.take(k as int));
            assert(ins.take(k + 1).last() == ins[k as int]);
        }
        if lookup_register(&rf, output).is_some() {
            proof {
                assert(run_instructions(ins.take(k + 1), nconst as nat, base) is None);
                lemma_run_prefix_fails(ins, nconst as nat, base, k + 1);
            }
            return Err(cpu_error(ErrorCode::CpuArtifactInvalid, "CPU bytecode register is defined more than once"));
        }
        match instruction_step(instruction, nconst, &rf) {
            None => {
                proof {
                    assert(run_instructions(ins.take(k + 1), nconst as nat, base) is None);
                    lemma_run_prefix_fails(ins, nconst as nat, base, k + 1);
                }
                return Err(cpu_error(ErrorCode::CpuArtifactInvalid, "CPU bytecode instruction references missing or ill-typed registers"));
            },
            Some((t, e)) => {
                let ghost before = rf@;
                rf.push((output, t, e));
                proof {
                    assert(rf_view(rf@) =~= rf_view(before).push((output, t, opt_extent(e))));
                }
            },
        }
        k = k + 1;
    }
    proof {
        assert(ins.take(ins.len() as int) =~= ins);
    }
    if !check_dense(&rf, function.register_count) || !check_outputs(&package.outputs, &rf) {
        return Err(cpu_error(ErrorCode::CpuArtifactInvalid, "CPU register file or outputs are not dense, ordered, and well typed"));
    }
    if !check_certificate(package) {
        return Err(cpu_error(ErrorCode::CpuArtifactEquivalenceUnproved, "CpuArtifactEquivalentToSchedule certificate is missing or inconsistent"));
    }
    let actual = cpu_artifact_hash(canonical);
    if !str_eq(actual.0.as_str(), package.cpu_artifact_hash.0.as_str()) {
        return Err(cpu_error(ErrorCode::CpuArtifactHashMismatch, "CPU artifact hash does not match its exact portable package")
            .with_types(package.cpu_artifact_hash.0.clone(), actual.0));
    }
    let prefix = actual.0.as_str().substring_char(0, 16);
    let mut expected_id = String::from_str("cpuart-");
    expected_id.append(prefix);
    proof {
        reveal_strlit("cpuart-");
    }
    if !str_eq(package.id.as_str(), expected_id.as_str()) {
        return Err(cpu_error(ErrorCode::CpuArtifactInvalid, "CPU artifact content identity does not match its package hash"));
    }
    Ok(())
}

// ---------------------------------------------------------------------------
// Summaries, events and the package store.

/// Deterministic CPU artifact summary.
#[derive(Debug)]
pub struct CpuArtifactQuery {
    /// Compiler-owned package identity.
    pub cpu_artifact: CpuArtifactId,
    /// Exact package hash.
    pub cpu_artifact_hash: CpuArtifactHash,
    /// Exact source schedule hash.
    pub schedule_hash: ScheduleHash,
    /// Exact CPU target hash.
    pub target_hash: TargetHash,
    /// CPU compiler build identity.
    pub compiler_build_hash: CpuCompilerBuildHash,
    /// Number of external bindings.
    pub binding_count: usize,
    /// Number of canonical constants.
    pub constant_count: usize,
    /// Number of portable instructions.
    pub instruction_count: usize,
    /// Canonical semantic package byte count.
    pub canonical_bytes: usize,
    /// Offline lifecycle state.
    pub status: CpuArtifactStatus,
}

/// Full structural CPU artifact validation report.
#[derive(Debug)]
pub struct CpuArtifactCheckReport {
    /// Deterministic package summary.
    pub query: CpuArtifactQuery,
    /// Whether structural bytecode validation passed.
    pub offline_valid: bool,
    /// Whether compiler-owned proof binds the package to ScheduleIR.
    pub equivalent_to_schedule: bool,
}

/// Replayable CPU artifact publication event.
#[derive(Debug)]
pub struct CpuArtifactEvent {
    /// Source schedule plan.
    pub schedule_plan: SchedulePlanId,
    /// Source schedule revision.
    pub schedule_revision: ScheduleRevisionId,
    /// Exact compiler-published package.
    pub package: CpuArtifactPackage,
    /// Schedule event dependency cursor.
    pub schedule_event_cursor: u64,
}

/// CPU artifact event with independent replay semantics.
#[derive(Debug)]
pub struct VersionedCpuArtifactEvent {
    /// CPU artifact event semantics version.
    pub semantics_version: u32,
    /// Replayable publication event.
    pub event: CpuArtifactEvent,
}

/// Persistent deterministic portable CPU packages.
pub struct CpuArtifactStore {
    /// Packages by compiler-owned content identity.
    pub packages: IdMap<CpuArtifactPackage>,
    /// Ordered publication history.
    pub events: Vec<VersionedCpuArtifactEvent>,
}

/// The total instruction count of the first `n` functions.
pub open spec fn instruction_total(fs: Seq<CpuFunction>, n: nat) -> int
    decreases n,
{
    if n == 0 {
        0
    } else {
        instruction_total(fs, (n - 1) as nat) + fs[n - 1].instructions@.len()
    }
}

/// The summary of a package whose canonical semantic bytes number `canonical_len`.
pub open spec fn query_matches(q: CpuArtifactQuery, p: CpuArtifactPackage, canonical_len: usize) -> bool {
    &&& q.cpu_artifact@ == p.id@
    &&& q.cpu_artifact_hash.0@ == p.cpu_artifact_hash.0@
    &&& q.schedule_hash.0@ == p.anchor.schedule_hash.0@
    &&& q.target_hash.0@ == p.anchor.target_hash.0@
    &&& q.compiler_build_hash.0@ == p.compiler_build_hash.0@
    &&& q.binding_count == p.bindings@.len()
    &&& q.constant_count == p.constants@.len()
    &&& q.instruction_count == instruction_total(p.functions@, p.functions@.len())
    &&& q.canonical_bytes == canonical_len
    &&& q.status == p.status
}

/// Summarizes one package, given the length of its canonical semantic bytes.
/// Requires the instruction count to fit in `usize`, as summing it does.
pub fn cpu_artifact_query(package: &CpuArtifactPackage, canonical_len: usize) -> (r: CpuArtifactQuery)
    requires
        instruction_total(package.functions@, package.functions@.len()) <= usize::MAX,
    ensures
        query_matches(r, *package, canonical_len),
{
    let mut count: usize = 0;
    let mut i: usize = 0;
    while i < package.functions.len()
        invariant
            i <= package.functions@.len(),
            count == instruction_total(package.functions@, i as nat),
            instruction_total(package.functions@, package.functions@.len()) <= usize::MAX,
        decreases package.functions.len() - i,
    {
        proof {
            lemma_instruction_total_monotone(package.functions@, (i + 1) as nat, package.functions@.len());
        }
        count = count + package.functions[i].instructions.len();
        i = i + 1;
    }
    CpuArtifactQuery {
        cpu_artifact: package.id.clone(),
        cpu_artifact_hash: CpuArtifactHash(package.cpu_artifact_hash.0.clone()),
        schedule_hash: package.anchor.schedule_hash.copy(),
        target_hash: package.anchor.target_hash.copy(),
        compiler_build_hash: CpuCompilerBuildHash(package.compiler_build_hash.0.clone()),
        binding_count: package.bindings.len(),
        constant_count: package.constants.len(),
        instruction_count: count,
        canonical_bytes: canonical_len,
        status: package.status,
    }
}

proof fn lemma_instruction_total_monotone(fs: Seq<CpuFunction>, a: nat, b: nat)
    requires
        a <= b,
    ensures
        instruction_total(fs, a) <= instruction_total(fs, b),
    decreases b - a,
{
    if a < b {
        lemma_instruction_total_monotone(fs, a, (b - 1) as nat);
    }
}

impl CpuArtifactStore {
    /// Creates an empty store.
    pub fn new() -> (r: Self)
        ensures
            r.packages@ == Map::<Seq<char>, CpuArtifactPackage>::empty(),
            r.events@.len() == 0,
    {
        CpuArtifactStore { packages: IdMap::new(), events: Vec::new() }
    }

    /// Returns one retained package.
    pub fn package(&self, artifact: &str) -> (r: AgentResult<&CpuArtifactPackage>)
        ensures
            match r {
                Ok(p) => self.packages@.contains_key(artifact@) && *p == self.packages@[artifact@],
                Err(e) => !self.packages@.contains_key(artifact@) && e.code == ErrorCode::CpuArtifactNotFound,
            },
    {
        match self.packages.get(artifact) {
            Some(p) => Ok(p),
            None => Err(cpu_error(ErrorCode::CpuArtifactNotFound, "CPU artifact does not exist")),
        }
    }

    /// Returns one deterministic summary; `canonical_len` is the length of the
    /// package's canonical semantic bytes.
    pub fn query(&self, artifact: &str, canonical_len: usize) -> (r: AgentResult<CpuArtifactQuery>)
        requires
            self.packages@.contains_key(artifact@) ==> instruction_total(
                self.packages@[artifact@].functions@,
                self.packages@[artifact@].functions@.len(),
            ) <= usize::MAX,
        ensures
            match r {
                Ok(q) => self.packages@.contains_key(artifact@) && query_matches(q, self.packages@[artifact@], canonical_len),
                Err(e) => !self.packages@.contains_key(artifact@) && e.code == ErrorCode::CpuArtifactNotFound,
            },
    {
        let package = self.package(artifact)?;
        Ok(cpu_artifact_query(package, canonical_len))
    }

    /// Fully validates one retained package without execution; `canonical`
    /// holds the package's canonical semantic bytes.
    pub fn check(&self, artifact: &str, canonical: &[u8]) -> (r: AgentResult<CpuArtifactCheckReport>)
        requires
            self.packages@.contains_key(artifact@) ==> instruction_total(
                self.packages@[artifact@].functions@,
                self.packages@[artifact@].functions@.len(),
            ) <= usize::MAX,
        ensures
            !self.packages@.contains_key(artifact@) ==> (r matches Err(e) && e.code == ErrorCode::CpuArtifactNotFound),
            self.packages@.contains_key(artifact@) ==> match cpu_artifact_verdict(self.packages@[artifact@], canonical@) {
                Ok(()) => (r matches Ok(report) && query_matches(report.query, self.packages@[artifact@], canonical@.len() as usize)
                    && report.offline_valid && report.equivalent_to_schedule),
                Err(c) => r matches Err(e) && e.code == c,
            },
    {
        let package = self.package(artifact)?;
        verify_cpu_artifact(package, canonical)?;
        Ok(CpuArtifactCheckReport {
            query: cpu_artifact_query(package, canonical.len()),
            offline_valid: true,
            equivalent_to_schedule: true,
        })
    }
}

} // verus!
