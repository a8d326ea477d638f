//! Typed physical buffer regions, layouts, lifetimes, alias facts, and the
//! structural verification of MemoryIR against its ImplIR source.

use crate::diagnostics::{AgentError, AgentResult, ErrorCode};
use crate::idmap::{kv_map, lemma_kv_at, sorted_kv, IdMap};
use crate::ids::{AliasDomainId, BufferId, ImplOperationId, ImplValueId, MemoryOperationId};
use crate::impl_ir::{
    ids_contain, is_output_value, op_reads, operation_reads, origin_op, output_returns,
    ImplProgram, ImplValueOrigin,
};
use crate::resources::{budget_against, ResourceLimits};
use crate::text::{seq_le, seq_less, str_eq, str_less};
use crate::types::{DimExpr, DimV, ScalarType, Shape, Type, TypeV};
use vstd::prelude::*;

verus! {

/// Current MemoryIR structural/evaluation semantics version.
pub const MEMORY_SEMANTICS_VERSION: u32 = 1;
/// Current MemoryIR validator implementation version.
pub const MEMORY_VALIDATOR_VERSION: u32 = 1;
/// Current deterministic memory trace codec version.
pub const MEMORY_TRACE_CODEC_VERSION: u32 = 1;

/// Abstract typed address space; no variant is a raw pointer space.
#[derive(Clone, Copy, Debug, PartialEq, Eq, Structural)]
pub enum AddressSpace {
    /// Externally visible or ordinary plan-owned storage.
    Global,
    /// Abstract workgroup-local storage without a target capacity claim.
    Shared,
    /// Abstract private storage without a target register/local-memory claim.
    Private,
    /// Immutable constant storage.
    Constant,
}

/// Legal access mode for one typed buffer region.
#[derive(Clone, Copy, Debug, PartialEq, Eq, Structural)]
pub enum AccessMode {
    /// Reads are permitted and writes are forbidden.
    ReadOnly,
    /// Writes are permitted and reads are forbidden.
    WriteOnly,
    /// Both reads and writes are permitted.
    ReadWrite,
}

/// Ownership of one abstract buffer region.
#[derive(Clone, Copy, Debug, PartialEq, Eq, Structural)]
pub enum Ownership {
    /// Storage is borrowed from an external caller.
    ExternalBorrowed,
    /// Storage is allocated and owned by this memory plan.
    PlanOwned,
    /// Immutable storage is owned by the constant pool.
    ConstantOwned,
    /// The region is a typed view into another owned region.
    View,
}

/// Exact symbolic stride expression in logical elements.
#[derive(Debug)]
pub enum MemoryStride {
    /// Fully static logical-element stride.
    Static {
        /// Non-zero stride in logical elements.
        value: u64,
    },
    /// Exact ordered product of logical dimensions.
    Product {
        /// Shape factors whose product is the stride.
        factors: Vec<DimExpr>,
    },
}

/// Ordered exact strides, one per logical tensor dimension.
#[derive(Debug)]
pub struct MemoryStrides {
    /// Outer-to-inner logical-element strides.
    pub entries: Vec<MemoryStride>,
}

/// Small explicit physical layout family.
#[derive(Debug)]
pub enum MemoryLayout {
    /// Dense row-major tensor storage.
    ContiguousRowMajor,
    /// Explicit exact logical-element strides.
    ExplicitStrided {
        /// Exact stride vector.
        strides: MemoryStrides,
    },
}

/// Compiler-derived lifetime in canonical logical operation order.
#[derive(Debug)]
pub struct Lifetime {
    /// Definition or external bind point.
    pub first_point: u64,
    /// Ordered logical operation use points.
    pub uses: Vec<u64>,
    /// Last logical use, including output escape.
    pub last_use: u64,
    /// Whether an external output keeps the region alive.
    pub output_escape: bool,
    /// Whether the caller owns the region lifetime.
    pub external: bool,
    /// Whether release after `last_use` is legal.
    pub deallocation_eligible: bool,
}

/// Proven relation between two abstract regions.
#[derive(Clone, Copy, Debug, PartialEq, Eq, Structural)]
pub enum AliasRelation {
    /// Both names denote the same complete region.
    MustAlias,
    /// The regions are compiler-proved disjoint.
    NoAlias,
    /// The compiler cannot statically rule out overlap.
    MayAlias,
    /// The regions overlap, but neither denotes the complete other region.
    PartialOverlap,
}

/// Compiler-owned provenance for an alias fact.
#[derive(Clone, Copy, Debug, PartialEq, Eq, Structural)]
pub enum AliasProvenance {
    /// The typed region model proves the relation.
    ProvedFromType,
    /// Fresh region construction proves the relation.
    ProvedFromRegionConstruction,
    /// Non-overlapping logical lifetimes prove the relation.
    ProvedFromLifetime,
    /// A trusted external binding contract proves the relation.
    ProvedFromExternalContract,
    /// A compiler-owned runtime predicate establishes the relation on one branch.
    RuntimeGuard,
    /// Untrusted metadata retained for audit only; never a proof.
    UnverifiedClaim,
}

/// One deterministic alias fact in canonical buffer-ID order.
#[derive(Debug)]
pub struct AliasFact {
    /// Lexicographically first buffer.
    pub first: BufferId,
    /// Lexicographically second buffer.
    pub second: BufferId,
    /// Relation between the two regions.
    pub relation: AliasRelation,
    /// Compiler-owned proof provenance.
    pub provenance: AliasProvenance,
}

/// One alias-domain record.
#[derive(Debug)]
pub struct AliasDomain {
    /// Compiler-assigned domain identity.
    pub id: AliasDomainId,
    /// Stable construction provenance.
    pub provenance: AliasProvenance,
}

/// One typed abstract buffer region.
#[derive(Debug)]
pub struct MemoryBuffer {
    /// Compiler-assigned buffer identity.
    pub id: BufferId,
    /// Logical scalar element type.
    pub element_type: ScalarType,
    /// Immutable logical tensor shape.
    pub shape: Shape,
    /// Explicit physical layout family.
    pub layout: MemoryLayout,
    /// Exact logical-element strides.
    pub strides: MemoryStrides,
    /// Abstract typed address space.
    pub address_space: AddressSpace,
    /// Legal access mode.
    pub access: AccessMode,
    /// Required power-of-two byte alignment.
    pub alignment: u64,
    /// Compiler-owned alias domain.
    pub alias_domain: AliasDomainId,
    /// Compiler-derived logical lifetime.
    pub lifetime: Lifetime,
    /// Region ownership.
    pub ownership: Ownership,
    /// Optional external parameter/output binding name.
    pub external_binding: Option<String>,
    /// Original ImplIR value materialized by this region.
    pub source_value: ImplValueId,
    /// Logical element offset within the abstract region.
    pub offset_elements: u64,
    /// Deterministic compiler provenance label.
    pub provenance: String,
}

/// Scalar SSA or tensor-buffer binding for one ImplIR value.
#[derive(Debug)]
pub enum MemoryBinding {
    /// Scalar remains functional SSA and is not forced into storage.
    Scalar {
        /// Logical ImplIR value.
        value: ImplValueId,
    },
    /// Tensor is materialized in one typed buffer region.
    Buffer {
        /// Logical ImplIR value.
        value: ImplValueId,
        /// Physical abstract region.
        buffer: BufferId,
    },
}

/// Read or write performed by one high-level semantic operation.
#[derive(Clone, Copy, Debug, PartialEq, Eq, Structural)]
pub enum BufferAccessKind {
    /// Typed indexed read.
    Read,
    /// Typed indexed write.
    Write,
    /// A single operation reads and overwrites the same region.
    ReadWrite,
}

/// Explicit typed access to one abstract buffer region.
#[derive(Debug)]
pub struct BufferAccess {
    /// Accessed region.
    pub buffer: BufferId,
    /// Logical value read or produced.
    pub value: ImplValueId,
    /// Access kind.
    pub kind: BufferAccessKind,
    /// Typed index profile; the logical index space is retained.
    pub typed_index: String,
}

/// One high-level semantic operation with explicit storage bindings.
#[derive(Debug)]
pub struct MemoryOperation {
    /// Compiler-assigned memory operation identity.
    pub id: MemoryOperationId,
    /// Immutable source ImplIR operation.
    pub impl_operation: ImplOperationId,
    /// Stable semantic opcode spelling.
    pub opcode: String,
    /// Ordered logical operand bindings.
    pub operands: Vec<MemoryBinding>,
    /// Ordered logical result bindings.
    pub results: Vec<MemoryBinding>,
    /// Explicit typed buffer accesses.
    pub accesses: Vec<BufferAccess>,
}

/// Physical storage choice for one tensor result.
#[derive(Debug)]
pub enum ReuseDecision {
    /// Conservative exact baseline using a fresh plan-owned region.
    Fresh {
        /// Fresh result region.
        buffer: BufferId,
    },
    /// Statically proved overwrite of a dead writable input region.
    InPlace {
        /// Logical input whose storage is reused.
        input: ImplValueId,
        /// Reused physical region.
        buffer: BufferId,
        /// Stable compiler-owned certificate label.
        certificate: String,
    },
    /// Compiler-owned NoOverlap guard selecting reuse or an exact fresh fallback.
    Guarded {
        /// Logical input whose storage is reused on the true branch.
        input: ImplValueId,
        /// Reused primary region.
        buffer: BufferId,
        /// Compiler-owned normalized guard.
        guard: Box<crate::memory::MemoryGuard>,
        /// Immutable fresh false-branch plan fragment.
        fallback: Box<crate::memory::MemoryFallback>,
        /// Stable compiler-owned certificate label.
        certificate: String,
    },
}

/// Separate typed MemoryIR program preserving high-level operation identity.
#[derive(Debug)]
pub struct MemoryProgram {
    /// One storage/SSA binding for every reachable ImplIR value.
    pub bindings: IdMap<MemoryBinding>,
    /// Active abstract buffer regions.
    pub buffers: IdMap<MemoryBuffer>,
    /// Immutable fresh templates retained as exact fallbacks.
    pub fresh_baseline_buffers: IdMap<MemoryBuffer>,
    /// High-level memory operations by ID.
    pub operations: IdMap<MemoryOperation>,
    /// Canonical logical operation order.
    pub operation_order: Vec<MemoryOperationId>,
    /// Immutable source-operation to memory-operation mapping.
    pub operation_for_impl: IdMap<MemoryOperationId>,
    /// Named observable output bindings.
    pub outputs: IdMap<MemoryBinding>,
    /// Alias domains retained by the plan.
    pub alias_domains: IdMap<AliasDomain>,
    /// Canonically sorted compiler-owned alias facts.
    pub alias_facts: Vec<AliasFact>,
    /// Explicit result storage decisions.
    pub reuse_decisions: IdMap<ReuseDecision>,
}

// ---------------------------------------------------------------------------
// Mathematical models of strides and layouts.

/// Model of one stride.
pub enum StrideV {
    /// Static stride.
    Static(u64),
    /// Symbolic product.
    Product(Seq<DimV>),
}

/// Model of a layout.
pub enum LayoutV {
    /// Dense row-major.
    ContiguousRowMajor,
    /// Explicit strides.
    ExplicitStrided(Seq<StrideV>),
}

impl View for MemoryStride {
    type V = StrideV;

    open spec fn view(&self) -> StrideV {
        match self {
            MemoryStride::Static { value } => StrideV::Static(*value),
            MemoryStride::Product { factors } => StrideV::Product(
                factors@.map_values(|d: DimExpr| d@),
            ),
        }
    }
}

impl View for MemoryStrides {
    type V = Seq<StrideV>;

    open spec fn view(&self) -> Seq<StrideV> {
        self.entries@.map_values(|s: MemoryStride| s@)
    }
}

impl View for MemoryLayout {
    type V = LayoutV;

    open spec fn view(&self) -> LayoutV {
        match self {
            MemoryLayout::ContiguousRowMajor => LayoutV::ContiguousRowMajor,
            MemoryLayout::ExplicitStrided { strides } => LayoutV::ExplicitStrided(strides@),
        }
    }
}

impl MemoryBinding {
    /// The bound logical value, as a spec.
    pub open spec fn value_id(self) -> Seq<char> {
        match self {
            MemoryBinding::Scalar { value } => value@,
            MemoryBinding::Buffer { value, .. } => value@,
        }
    }

    /// The bound buffer, as a spec.
    pub open spec fn buffer_id(self) -> Option<Seq<char>> {
        match self {
            MemoryBinding::Scalar { .. } => None,
            MemoryBinding::Buffer { buffer, .. } => Some(buffer@),
        }
    }

    /// Returns the bound logical value.
    pub fn value(&self) -> (r: &ImplValueId)
        ensures
            r@ == self.value_id(),
    {
        match self {
            MemoryBinding::Scalar { value } => value,
            MemoryBinding::Buffer { value, .. } => value,
        }
    }

    /// Returns the bound buffer for tensor storage.
    pub fn buffer(&self) -> (r: Option<&BufferId>)
        ensures
            match r {
                Some(b) => self.buffer_id() == Some(b@),
                None => self.buffer_id() is None,
            },
    {
        match self {
            MemoryBinding::Scalar { .. } => None,
            MemoryBinding::Buffer { buffer, .. } => Some(buffer),
        }
    }
}

fn memory_error(code: ErrorCode, message: &str) -> (r: AgentError)
    ensures
        r.code == code,
{
    AgentError::new(code, message)
}

// ---------------------------------------------------------------------------
// Element sizes, strides and static allocation sizes.

/// Bytes of one logical element.
pub open spec fn spec_element_bytes(e: ScalarType) -> u64 {
    match e {
        ScalarType::Bool => 1,
        ScalarType::I32 => 4,
        ScalarType::F32 => 4,
        ScalarType::Index => 8,
    }
}

/// Returns the byte size of one logical element.
pub fn element_bytes(element: ScalarType) -> (r: u64)
    ensures
        r == spec_element_bytes(element),
{
    match element {
        ScalarType::Bool => 1,
        ScalarType::I32 | ScalarType::F32 => 4,
        ScalarType::Index => 8,
    }
}

/// Scans static factors left to right, multiplying them; the first symbolic
/// factor turns the stride into a symbolic product.
pub open spec fn stride_scan(f: Seq<DimV>, i: nat, acc: nat) -> Result<StrideV, ErrorCode>
    decreases f.len() - i,
{
    if i >= f.len() {
        Ok(StrideV::Static(acc as u64))
    } else {
        match f[i as int] {
            DimV::Static(v) => {
                if v == 0 {
                    Err(ErrorCode::InvalidMemoryLayout)
                } else if acc * v > u64::MAX {
                    Err(ErrorCode::InvalidMemoryLayout)
                } else {
                    stride_scan(f, i + 1, (acc * v) as nat)
                }
            },
            _ => Ok(StrideV::Product(f)),
        }
    }
}

/// The stride of one dimension: the exact product of the inner extents.
pub open spec fn spec_stride_product(f: Seq<DimV>) -> Result<StrideV, ErrorCode> {
    if f.len() == 0 {
        Ok(StrideV::Static(1))
    } else {
        stride_scan(f, 0, 1)
    }
}

fn copy_dims(factors: &[DimExpr]) -> (r: Vec<DimExpr>)
    ensures
        r@.map_values(|d: DimExpr| d@) == factors@.map_values(|d: DimExpr| d@),
{
    let mut out: Vec<DimExpr> = Vec::new();
    let mut i: usize = 0;
    while i < factors.len()
        invariant
            i <= factors@.len(),
            out@.len() == i,
            forall|j: int| 0 <= j < i ==> (#[trigger] out@[j])@ == factors@[j]@,
        decreases factors.len() - i,
    {
        out.push(factors[i].copy());
        i = i + 1;
    }
    assert(out@.map_values(|d: DimExpr| d@) =~= factors@.map_values(|d: DimExpr| d@));
    out
}

/// Computes the row-major stride for the given inner factors.
pub fn stride_product(factors: &[DimExpr]) -> (r: AgentResult<MemoryStride>)
    ensures
        match spec_stride_product(factors@.map_values(|d: DimExpr| d@)) {
            Ok(s) => r matches Ok(x) && x@ == s,
            Err(c) => r matches Err(e) && e.code == c,
        },
{
    let ghost f = factors@.map_values(|d: DimExpr| d@);
    if factors.len() == 0 {
        return Ok(MemoryStride::Static { value: 1 });
    }
    let mut product: u64 = 1;
    let mut i: usize = 0;
    while i < factors.len()
        invariant
            f == factors@.map_values(|d: DimExpr| d@),
            f.len() > 0,
            i <= factors@.len(),
            stride_scan(f, 0, 1) == stride_scan(f, i as nat, product as nat),
        decreases factors.len() - i,
    {
        match &factors[i] {
            DimExpr::Static(value) => {
                if *value == 0 {
                    return Err(
                        memory_error(
                            ErrorCode::InvalidMemoryLayout,
                            "zero-sized static tensor allocation is unsupported in MemoryIR v1",
                        ),
                    );
                }
                match product.checked_mul(*value) {
                    Some(p) => {
                        product = p;
                    },
                    None => {
                        return Err(
                            memory_error(
                                ErrorCode::InvalidMemoryLayout,
                                "row-major stride computation overflowed u64",
                            ),
                        );
                    },
                }
            },
            _ => {
                return Ok(MemoryStride::Product { factors: copy_dims(factors) });
            },
        }
        i = i + 1;
    }
    Ok(MemoryStride::Static { value: product })
}

/// Contiguous row-major strides of the dimensions from position `i` on.
pub open spec fn contiguous_from(s: Seq<DimV>, i: nat) -> Result<Seq<StrideV>, ErrorCode>
    decreases s.len() - i,
{
    if i >= s.len() {
        Ok(Seq::empty())
    } else {
        match spec_stride_product(s.subrange(i as int + 1, s.len() as int)) {
            Err(c) => Err(c),
            Ok(st) => match contiguous_from(s, i + 1) {
                Err(c) => Err(c),
                Ok(rest) => Ok(seq![st] + rest),
            },
        }
    }
}

/// Exact contiguous row-major strides of a shape.
pub open spec fn spec_contiguous_strides(s: Seq<DimV>) -> Result<Seq<StrideV>, ErrorCode> {
    contiguous_from(s, 0)
}

proof fn lemma_contiguous_prefix(s: Seq<DimV>, i: nat, prefix: Seq<StrideV>, st: StrideV)
    requires
        i < s.len(),
        spec_stride_product(s.subrange(i as int + 1, s.len() as int)) == Ok::<StrideV, ErrorCode>(
            st,
        ),
    ensures
        match contiguous_from(s, i + 1) {
            Ok(rest) => contiguous_from(s, i) == Ok::<Seq<StrideV>, ErrorCode>(seq![st] + rest),
            Err(c) => contiguous_from(s, i) == Err::<Seq<StrideV>, ErrorCode>(c),
        },
{
}

/// Returns `prefix` followed by the strides of positions `i..`, as a spec.
spec fn contiguous_after(s: Seq<DimV>, i: nat, prefix: Seq<StrideV>) -> Result<Seq<StrideV>, ErrorCode> {
    match contiguous_from(s, i) {
        Ok(rest) => Ok(prefix + rest),
        Err(c) => Err(c),
    }
}

/// Computes exact contiguous row-major logical-element strides.
pub fn contiguous_strides(shape: &Shape) -> (r: AgentResult<MemoryStrides>)
    ensures
        match spec_contiguous_strides(shape@) {
            Ok(s) => r matches Ok(x) && x@ == s,
            Err(c) => r matches Err(e) && e.code == c,
        },
{
    let mut entries: Vec<MemoryStride> = Vec::new();
    let n = shape.0.len();
    let mut index: usize = 0;
    assert(shape@ =~= shape.0@.map_values(|d: DimExpr| d@));
    while index < n
        invariant
            n == shape.0@.len(),
            index <= n,
            shape@.len() == n,
            contiguous_after(shape@, index as nat, entries@.map_values(|e: MemoryStride| e@))
                == spec_contiguous_strides(shape@),
        decreases n - index,
    {
        let slice = vstd::slice::slice_subrange(shape.0.as_slice(), index + 1, n);
        proof {
            assert(slice@.map_values(|d: DimExpr| d@) =~= shape@.subrange(index as int + 1, n as int));
        }
        let st = stride_product(slice);
        match st {
            Ok(s) => {
                proof {
                    lemma_contiguous_prefix(shape@, index as nat, Seq::empty(), s@);
                    let old_e = entries@.map_values(|e: MemoryStride| e@);
                    match contiguous_from(shape@, index as nat + 1) {
                        Ok(rest) => {
                            assert(old_e + (seq![s@] + rest) =~= old_e.push(s@) + rest);
                        },
                        Err(_) => {},
                    }
                }
                let ghost before = entries@.map_values(|e: MemoryStride| e@);
                let ghost sv = s@;
                entries.push(s);
                proof {
                    assert(entries@.map_values(|e: MemoryStride| e@) =~= before.push(sv));
                }
            },
            Err(e) => {
                return Err(e);
            },
        }
        index = index + 1;
    }
    let r = MemoryStrides { entries };
    proof {
        assert(r@ =~= entries@.map_values(|e: MemoryStride| e@));
        assert(r@ + Seq::<StrideV>::empty() =~= r@);
    }
    Ok(r)
}

impl MemoryStride {
    /// Structural equality.
    pub fn same(&self, other: &Self) -> (r: bool)
        ensures
            r == (self@ == other@),
    {
        match (self, other) {
            (MemoryStride::Static { value: a }, MemoryStride::Static { value: b }) => *a == *b,
            (MemoryStride::Product { factors: a }, MemoryStride::Product { factors: b }) => {
                let sa = Shape(copy_dims(a.as_slice()));
                let sb = Shape(copy_dims(b.as_slice()));
                let r = sa.same(&sb);
                proof {
                    assert(sa@ == a@.map_values(|d: DimExpr| d@));
                    assert(sb@ == b@.map_values(|d: DimExpr| d@));
                }
                r
            },
            _ => false,
        }
    }

    /// Copies the stride.
    pub fn copy(&self) -> (r: Self)
        ensures
            r@ == self@,
    {
        match self {
            MemoryStride::Static { value } => MemoryStride::Static { value: *value },
            MemoryStride::Product { factors } => MemoryStride::Product { factors: copy_dims(factors.as_slice()) },
        }
    }
}

impl MemoryStrides {
    /// Structural equality.
    pub fn same(&self, other: &Self) -> (r: bool)
        ensures
            r == (self@ == other@),
    {
        if self.entries.len() != other.entries.len() {
            assert(self@.len() != other@.len());
            return false;
        }
        let mut i: usize = 0;
        while i < self.entries.len()
            invariant
                self.entries@.len() == other.entries@.len(),
                i <= self.entries@.len(),
                forall|j: int| 0 <= j < i ==> (#[trigger] self.entries@[j])@ == other.entries@[j]@,
            decreases self.entries.len() - i,
        {
            if !self.entries[i].same(&other.entries[i]) {
                assert(self@[i as int] != other@[i as int]);
                return false;
            }
            i = i + 1;
        }
        assert(self@ =~= other@);
        true
    }

    /// Copies the strides.
    pub fn copy(&self) -> (r: Self)
        ensures
            r@ == self@,
    {
        let mut out: Vec<MemoryStride> = Vec::new();
        let mut i: usize = 0;
        while i < self.entries.len()
            invariant
                i <= self.entries@.len(),
                out@.len() == i,
                forall|j: int| 0 <= j < i ==> (#[trigger] out@[j])@ == self.entries@[j]@,
            decreases self.entries.len() - i,
        {
            out.push(self.entries[i].copy());
            i = i + 1;
        }
        let r = MemoryStrides { entries: out };
        assert(r@ =~= self@);
        r
    }
}

impl MemoryLayout {
    /// Structural equality.
    pub fn same(&self, other: &Self) -> (r: bool)
        ensures
            r == (self@ == other@),
    {
        match (self, other) {
            (MemoryLayout::ContiguousRowMajor, MemoryLayout::ContiguousRowMajor) => true,
            (MemoryLayout::ExplicitStrided { strides: a }, MemoryLayout::ExplicitStrided { strides: b }) => a.same(b),
            _ => false,
        }
    }
}

/// Scans the extents of a buffer, multiplying static ones.
pub open spec fn allocation_scan(d: Seq<DimV>, i: nat, acc: nat, eb: nat) -> Result<Option<u64>, ErrorCode>
    decreases d.len() - i,
{
    if i >= d.len() {
        if acc * eb > u64::MAX {
            Err(ErrorCode::InvalidMemoryLayout)
        } else {
            Ok(Some((acc * eb) as u64))
        }
    } else {
        match d[i as int] {
            DimV::Static(v) => {
                if v == 0 {
                    Err(ErrorCode::InvalidMemoryLayout)
                } else if acc * v > u64::MAX {
                    Err(ErrorCode::InvalidMemoryLayout)
                } else {
                    allocation_scan(d, i + 1, (acc * v) as nat, eb)
                }
            },
            _ => Ok(None),
        }
    }
}

/// Static allocation bytes of a buffer; `None` when some extent is symbolic.
pub open spec fn spec_static_allocation_bytes(b: MemoryBuffer) -> Result<Option<u64>, ErrorCode> {
    allocation_scan(b.shape@, 0, 1, spec_element_bytes(b.element_type) as nat)
}

/// Computes the static allocation size of a buffer in bytes.
pub fn static_allocation_bytes(buffer: &MemoryBuffer) -> (r: AgentResult<Option<u64>>)
    ensures
        match spec_static_allocation_bytes(*buffer) {
            Ok(v) => r == Ok::<Option<u64>, AgentError>(v),
            Err(c) => r matches Err(e) && e.code == c,
        },
{
    let ghost d = buffer.shape@;
    let ghost eb = spec_element_bytes(buffer.element_type) as nat;
    let mut elements: u64 = 1;
    let mut i: usize = 0;
    let n = buffer.shape.0.len();
    while i < n
        invariant
            d == buffer.shape@,
            eb == spec_element_bytes(buffer.element_type) as nat,
            n == buffer.shape.0@.len(),
            i <= n,
            allocation_scan(d, 0, 1, eb) == allocation_scan(d, i as nat, elements as nat, eb),
        decreases n - i,
    {
        match &buffer.shape.0[i] {
            DimExpr::Static(extent) => {
                if *extent == 0 {
                    return Err(memory_error(ErrorCode::InvalidMemoryLayout, "zero-sized static tensor buffer is unsupported"));
                }
                match elements.checked_mul(*extent) {
                    Some(p) => {
                        elements = p;
                    },
                    None => {
                        return Err(memory_error(ErrorCode::InvalidMemoryLayout, "buffer element count overflowed u64"));
                    },
                }
            },
            _ => {
                return Ok(None);
            },
        }
        i = i + 1;
    }
    match elements.checked_mul(element_bytes(buffer.element_type)) {
        Some(bytes) => Ok(Some(bytes)),
        None => Err(memory_error(ErrorCode::InvalidMemoryLayout, "buffer allocation byte count overflowed u64")),
    }
}

/// Whether `x` is a power of two.
pub open spec fn is_pow2(x: nat) -> bool
    decreases x,
{
    if x == 1 {
        true
    } else if x < 2 || x % 2 != 0 {
        false
    } else {
        is_pow2(x / 2)
    }
}

/// Tests whether `x` is a power of two.
pub fn is_power_of_two(x: u64) -> (r: bool)
    ensures
        r == is_pow2(x as nat),
{
    let mut y = x;
    while y > 1 && y % 2 == 0
        invariant
            is_pow2(x as nat) == is_pow2(y as nat),
        decreases y,
    {
        y = y / 2;
    }
    y == 1
}

/// The first failure of layout verification, or `None` when the layout is legal.
pub open spec fn layout_failure(b: MemoryBuffer, limits: ResourceLimits) -> Option<ErrorCode> {
    if b.strides.entries@.len() > limits.memory_layout_entries {
        Some(ErrorCode::ResourceLimitExceeded)
    } else if b.strides.entries@.len() != b.shape.0@.len() {
        Some(ErrorCode::InvalidMemoryLayout)
    } else if b.alignment == 0 || !is_pow2(b.alignment as nat) {
        Some(ErrorCode::AlignmentUnsatisfied)
    } else if b.alignment < spec_element_bytes(b.element_type) {
        Some(ErrorCode::AlignmentUnsatisfied)
    } else {
        match spec_contiguous_strides(b.shape@) {
            Err(c) => Some(c),
            Ok(contiguous) => match b.layout@ {
                LayoutV::ContiguousRowMajor => if b.strides@ != contiguous {
                    Some(ErrorCode::InvalidMemoryLayout)
                } else {
                    None
                },
                LayoutV::ExplicitStrided(s) => if s != b.strides@ {
                    Some(ErrorCode::InvalidMemoryLayout)
                } else {
                    None
                },
            },
        }
    }
}

/// Verifies the layout, strides and alignment of one buffer.
pub fn verify_layout(buffer: &MemoryBuffer, limits: &ResourceLimits) -> (r: AgentResult<()>)
    ensures
        r is Ok <==> layout_failure(*buffer, *limits) is None,
        r matches Err(e) ==> Some(e.code) == layout_failure(*buffer, *limits),
{
    budget_against(limits.memory_layout_entries, buffer.strides.entries.len() as u64, "MemoryIR buffer layout")?;
    if buffer.strides.entries.len() != buffer.shape.0.len() {
        return Err(memory_error(ErrorCode::InvalidMemoryLayout, "stride count differs from tensor rank"));
    }
    if buffer.alignment == 0 || !is_power_of_two(buffer.alignment) {
        return Err(memory_error(ErrorCode::AlignmentUnsatisfied, "buffer alignment must be a non-zero power of two"));
    }
    if buffer.alignment < element_bytes(buffer.element_type) {
        return Err(memory_error(ErrorCode::AlignmentUnsatisfied, "buffer alignment is smaller than its element size"));
    }
    let contiguous = contiguous_strides(&buffer.shape)?;
    match &buffer.layout {
        MemoryLayout::ContiguousRowMajor => {
            if !buffer.strides.same(&contiguous) {
                return Err(memory_error(ErrorCode::InvalidMemoryLayout, "contiguous row-major buffer has non-canonical strides"));
            }
            Ok(())
        },
        MemoryLayout::ExplicitStrided { strides } => {
            if !strides.same(&buffer.strides) {
                return Err(memory_error(ErrorCode::InvalidMemoryLayout, "explicit layout and buffer stride fields disagree"));
            }
            Ok(())
        },
    }
}

// ---------------------------------------------------------------------------
// Queries over a memory program.

/// The canonical order of a buffer pair.
pub open spec fn ordered_pair(a: Seq<char>, b: Seq<char>) -> (Seq<char>, Seq<char>) {
    if seq_le(a, b) {
        (a, b)
    } else {
        (b, a)
    }
}

/// Whether a fact concerns exactly the ordered pair `(l, r)`.
pub open spec fn fact_for(f: AliasFact, l: Seq<char>, r: Seq<char>) -> bool {
    f.first@ == l && f.second@ == r
}

/// Whether two facts agree field by field.
pub open spec fn fact_same(a: AliasFact, b: AliasFact) -> bool {
    a.first@ == b.first@ && a.second@ == b.second@ && a.relation == b.relation && a.provenance
        == b.provenance
}

/// The position of the first fact about `(l, r)`.
pub open spec fn first_fact(facts: Seq<AliasFact>, l: Seq<char>, r: Seq<char>) -> Option<int> {
    if exists|i: int| 0 <= i < facts.len() && fact_for(#[trigger] facts[i], l, r) {
        Some(choose|i: int| 0 <= i < facts.len() && fact_for(#[trigger] facts[i], l, r)
            && forall|j: int| 0 <= j < i ==> !fact_for(#[trigger] facts[j], l, r))
    } else {
        None
    }
}

proof fn lemma_first_fact(facts: Seq<AliasFact>, l: Seq<char>, r: Seq<char>, i: int)
    requires
        0 <= i < facts.len(),
        fact_for(facts[i], l, r),
        forall|j: int| 0 <= j < i ==> !fact_for(#[trigger] facts[j], l, r),
    ensures
        first_fact(facts, l, r) == Some(i),
{
    let k = choose|k: int| 0 <= k < facts.len() && fact_for(#[trigger] facts[k], l, r)
        && forall|j: int| 0 <= j < k ==> !fact_for(#[trigger] facts[j], l, r);
    assert(0 <= k < facts.len() && fact_for(facts[k], l, r));
    if k < i {
        assert(!fact_for(facts[k], l, r));
    }
    if k > i {
        assert(!fact_for(facts[i], l, r));
    }
}

/// The alias fact a query about `a` and `b` answers with.
pub open spec fn spec_alias_relation(m: MemoryProgram, a: Seq<char>, b: Seq<char>) -> Result<AliasFact, ErrorCode> {
    if !(m.buffers@.contains_key(a) && m.buffers@.contains_key(b)) {
        Err(ErrorCode::BufferNotFound)
    } else {
        let (l, r) = ordered_pair(a, b);
        match first_fact(m.alias_facts@, l, r) {
            Some(i) => Ok(m.alias_facts@[i]),
            None => Err(ErrorCode::AliasProofMissing),
        }
    }
}

impl AliasFact {
    /// Copies the fact.
    pub fn copy(&self) -> (r: Self)
        ensures
            fact_same(r, *self),
    {
        AliasFact {
            first: self.first.clone(),
            second: self.second.clone(),
            relation: self.relation,
            provenance: self.provenance,
        }
    }
}

/// Returns the compiler-owned alias fact for two buffers.
pub fn alias_relation(memory: &MemoryProgram, first: &str, second: &str) -> (r: AgentResult<AliasFact>)
    ensures
        match spec_alias_relation(*memory, first@, second@) {
            Ok(f) => r matches Ok(x) && fact_same(x, f),
            Err(c) => r matches Err(e) && e.code == c,
        },
{
    if !memory.buffers.contains_key(first) || !memory.buffers.contains_key(second) {
        return Err(memory_error(ErrorCode::BufferNotFound, "alias query references a missing buffer"));
    }
    let le = str_eq(first, second) || str_less(first, second);
    let (left, right) = if le {
        (first, second)
    } else {
        (second, first)
    };
    let ghost lr = ordered_pair(first@, second@);
    assert(left@ == lr.0 && right@ == lr.1);
    let mut i: usize = 0;
    while i < memory.alias_facts.len()
        invariant
            i <= memory.alias_facts@.len(),
            memory.buffers@.contains_key(first@),
            memory.buffers@.contains_key(second@),
            lr == ordered_pair(first@, second@),
            left@ == lr.0,
            right@ == lr.1,
            forall|j: int| 0 <= j < i ==> !fact_for(#[trigger] memory.alias_facts@[j], lr.0, lr.1),
        decreases memory.alias_facts.len() - i,
    {
        let f = &memory.alias_facts[i];
        if str_eq(f.first.as_str(), left) && str_eq(f.second.as_str(), right) {
            proof {
                let facts = memory.alias_facts@;
                assert(fact_for(facts[i as int], lr.0, lr.1));
                lemma_first_fact(facts, lr.0, lr.1, i as int);
                assert(spec_alias_relation(*memory, first@, second@) == Ok::<AliasFact, ErrorCode>(facts[i as int]));
            }
            return Ok(f.copy());
        }
        i = i + 1;
    }
    Err(memory_error(ErrorCode::AliasProofMissing, "compiler-owned alias fact is missing"))
}

/// Whether a relation permits overlap.
pub open spec fn overlapping_relation(r: AliasRelation) -> bool {
    r == AliasRelation::MustAlias || r == AliasRelation::MayAlias || r == AliasRelation::PartialOverlap
}

/// Only a proof of disjointness rules out overlap: a relation permits two
/// regions to overlap exactly when it is not `NoAlias`.
pub proof fn law_only_no_alias_excludes_overlap(r: AliasRelation)
    ensures
        overlapping_relation(r) <==> r != AliasRelation::NoAlias,
{
}

/// `may_overlap` on two buffers whose alias fact is known answers false
/// only when that fact proves the regions disjoint (`NoAlias`); for
/// must-, may- and partial aliasing it answers true.
pub proof fn law_may_overlap_unless_disjoint(m: MemoryProgram, a: Seq<char>, b: Seq<char>)
    requires
        spec_alias_relation(m, a, b) is Ok,
    ensures
        overlapping_relation(spec_alias_relation(m, a, b)->Ok_0.relation) <==> spec_alias_relation(m, a, b)->Ok_0.relation
            != AliasRelation::NoAlias,
        spec_alias_relation(m, a, b)->Ok_0.relation == AliasRelation::MayAlias ==> overlapping_relation(
            spec_alias_relation(m, a, b)->Ok_0.relation,
        ),
{
}

/// Returns whether compiler-owned alias facts permit the two regions to overlap.
pub fn may_overlap(memory: &MemoryProgram, first: &str, second: &str) -> (r: AgentResult<bool>)
    ensures
        match spec_alias_relation(*memory, first@, second@) {
            Ok(f) => r == Ok::<bool, AgentError>(overlapping_relation(f.relation)),
            Err(c) => r matches Err(e) && e.code == c,
        },
{
    let fact = alias_relation(memory, first, second)?;
    Ok(match fact.relation {
        AliasRelation::MustAlias | AliasRelation::MayAlias | AliasRelation::PartialOverlap => true,
        AliasRelation::NoAlias => false,
    })
}

/// The buffer a value is bound to, if it is bound to one.
pub open spec fn bound_buffer(m: MemoryProgram, v: Seq<char>) -> Option<Seq<char>> {
    if m.bindings@.contains_key(v) {
        m.bindings@[v].buffer_id()
    } else {
        None
    }
}

/// The active buffer region a value is bound to.
pub open spec fn active_buffer(m: MemoryProgram, v: Seq<char>) -> Option<MemoryBuffer> {
    match bound_buffer(m, v) {
        Some(id) => if m.buffers@.contains_key(id) {
            Some(m.buffers@[id])
        } else {
            None
        },
        None => None,
    }
}

/// Returns the active typed buffer bound to one tensor value.
pub fn buffer_of<'a>(memory: &'a MemoryProgram, value: &str) -> (r: AgentResult<&'a MemoryBuffer>)
    ensures
        match r {
            Ok(b) => active_buffer(*memory, value@) == Some(*b),
            Err(e) => e.code == ErrorCode::BufferNotFound && active_buffer(*memory, value@) is None,
        },
{
    let binding = match memory.bindings.get(value) {
        Some(b) => b,
        None => {
            return Err(memory_error(ErrorCode::BufferNotFound, "value has no active tensor buffer"));
        },
    };
    let buffer = match binding.buffer() {
        Some(b) => b,
        None => {
            return Err(memory_error(ErrorCode::BufferNotFound, "value has no active tensor buffer"));
        },
    };
    match memory.buffers.get(buffer.as_str()) {
        Some(b) => Ok(b),
        None => Err(memory_error(ErrorCode::BufferNotFound, "value binding references a missing active buffer")),
    }
}

/// Returns the compiler-derived logical lifetime for one active buffer.
pub fn lifetime_of<'a>(memory: &'a MemoryProgram, buffer: &str) -> (r: AgentResult<&'a Lifetime>)
    ensures
        match r {
            Ok(l) => memory.buffers@.contains_key(buffer@) && memory.buffers@[buffer@].lifetime == *l,
            Err(e) => e.code == ErrorCode::BufferNotFound && !memory.buffers@.contains_key(buffer@),
        },
{
    match memory.buffers.get(buffer) {
        Some(b) => Ok(&b.lifetime),
        None => Err(memory_error(ErrorCode::BufferNotFound, "lifetime buffer does not exist")),
    }
}

/// Returns the required power-of-two byte alignment for one active buffer.
pub fn required_alignment(memory: &MemoryProgram, buffer: &str) -> (r: AgentResult<u64>)
    ensures
        match r {
            Ok(a) => memory.buffers@.contains_key(buffer@) && memory.buffers@[buffer@].alignment == a,
            Err(e) => e.code == ErrorCode::BufferNotFound && !memory.buffers@.contains_key(buffer@),
        },
{
    match memory.buffers.get(buffer) {
        Some(b) => Ok(b.alignment),
        None => Err(memory_error(ErrorCode::BufferNotFound, "alignment buffer does not exist")),
    }
}

// ---------------------------------------------------------------------------
// Logical use points of ImplIR values.

/// Use points of `v` among the first `n` operations of the canonical order.
pub open spec fn uses_upto(p: ImplProgram, v: Seq<char>, n: nat) -> Seq<u64>
    decreases n,
{
    if n == 0 || n > p.operation_order@.len() {
        Seq::empty()
    } else {
        let id = p.operation_order@[n - 1]@;
        uses_upto(p, v, (n - 1) as nat) + if p.operations@.contains_key(id) && op_reads(
            p.operations@[id],
            v,
        ) {
            seq![n as u64]
        } else {
            Seq::<u64>::empty()
        }
    }
}

/// `n + 1`, saturated at the largest `u64`.
pub open spec fn saturating_succ(n: nat) -> u64 {
    if n >= u64::MAX {
        u64::MAX
    } else {
        (n + 1) as u64
    }
}

/// Ordered logical use points of a value: 1-based positions of the operations
/// that read it, then one past the last operation when an output returns it.
pub open spec fn spec_value_uses(p: ImplProgram, v: Seq<char>) -> Seq<u64> {
    let n = p.operation_order@.len();
    let base = uses_upto(p, v, n);
    if is_output_value(p, v) && !(base.len() > 0 && base.last() == saturating_succ(n)) {
        base.push(saturating_succ(n))
    } else {
        base
    }
}

/// Whether a sequence of points is strictly increasing.
pub open spec fn strictly_increasing(s: Seq<u64>) -> bool {
    forall|i: int, j: int| 0 <= i < j < s.len() ==> #[trigger] s[i] < #[trigger] s[j]
}

proof fn lemma_uses_upto_bounded(p: ImplProgram, v: Seq<char>, n: nat)
    requires
        n <= u64::MAX,
    ensures
        strictly_increasing(uses_upto(p, v, n)),
        forall|i: int| 0 <= i < uses_upto(p, v, n).len() ==> 1 <= #[trigger] uses_upto(p, v, n)[i] <= n,
    decreases n,
{
    if n > 0 && n <= p.operation_order@.len() {
        lemma_uses_upto_bounded(p, v, (n - 1) as nat);
        let prev = uses_upto(p, v, (n - 1) as nat);
        let cur = uses_upto(p, v, n);
        assert forall|i: int| 0 <= i < cur.len() implies 1 <= #[trigger] cur[i] <= n by {
            if i < prev.len() {
                assert(cur[i] == prev[i]);
            }
        }
        assert forall|i: int, j: int| 0 <= i < j < cur.len() implies #[trigger] cur[i] < #[trigger] cur[j] by {
            if j < prev.len() {
                assert(cur[i] == prev[i] && cur[j] == prev[j]);
            } else {
                assert(cur[i] == prev[i]);
                assert(prev[i] <= n - 1);
            }
        }
    }
}

/// The last element of a point sequence, or zero.
pub open spec fn last_or_zero(s: Seq<u64>) -> u64 {
    if s.len() == 0 {
        0
    } else {
        s.last()
    }
}

/// Computes the ordered logical use points of one value.
pub fn value_uses(program: &ImplProgram, value: &str) -> (r: Vec<u64>)
    ensures
        r@ == spec_value_uses(*program, value@),
        strictly_increasing(r@),
{
    let mut uses: Vec<u64> = Vec::new();
    let n = program.operation_order.len();
    let mut index: usize = 0;
    while index < n
        invariant
            n == program.operation_order@.len(),
            index <= n,
            uses@ == uses_upto(*program, value@, index as nat),
        decreases n - index,
    {
        let id = &program.operation_order[index];
        let reads = match program.operations.get(id.as_str()) {
            Some(op) => operation_reads(op, value),
            None => false,
        };
        if reads {
            let point = index + 1;
            uses.push(point as u64);
        }
        proof {
            let ghost expect = uses_upto(*program, value@, (index + 1) as nat);
            assert(uses@ =~= expect);
        }
        index = index + 1;
    }
    if output_returns(program, value) {
        let point: u64 = if (n as u64) == u64::MAX { u64::MAX } else { (n as u64) + 1 };
        if !(uses.len() > 0 && uses[uses.len() - 1] == point) {
            uses.push(point);
        }
    }
    proof {
        assert(n as nat <= u64::MAX);
        lemma_uses_upto_bounded(*program, value@, n as nat);
        let base = uses_upto(*program, value@, n as nat);
        if uses@.len() > base.len() {
            assert forall|i: int, j: int| 0 <= i < j < uses@.len() implies #[trigger] uses@[i] < #[trigger] uses@[j] by {
                if j < base.len() {
                    assert(uses@[i] == base[i] && uses@[j] == base[j]);
                } else {
                    assert(uses@[i] == base[i]);
                    assert(base[i] <= base.last());
                }
            }
        }
        assert(uses@ =~= spec_value_uses(*program, value@));
    }
    uses
}

/// Returns the last canonical logical use point of one ImplIR value.
pub fn last_use(implementation: &ImplProgram, value: &str) -> (r: Option<u64>)
    ensures
        match r {
            Some(x) => spec_value_uses(*implementation, value@).len() > 0 && x == spec_value_uses(
                *implementation,
                value@,
            ).last(),
            None => spec_value_uses(*implementation, value@).len() == 0,
        },
{
    let uses = value_uses(implementation, value);
    if uses.len() == 0 {
        None
    } else {
        Some(uses[uses.len() - 1])
    }
}

/// The first position of `id` in an identifier sequence.
pub open spec fn first_pos(s: Seq<String>, id: Seq<char>) -> Option<int> {
    if exists|i: int| 0 <= i < s.len() && (#[trigger] s[i])@ == id {
        Some(choose|i: int| 0 <= i < s.len() && (#[trigger] s[i])@ == id && forall|j: int| 0 <= j < i ==> (#[trigger] s[j])@ != id)
    } else {
        None
    }
}

proof fn lemma_first_pos(s: Seq<String>, id: Seq<char>, i: int)
    requires
        0 <= i < s.len(),
        s[i]@ == id,
        forall|j: int| 0 <= j < i ==> (#[trigger] s[j])@ != id,
    ensures
        first_pos(s, id) == Some(i),
{
    let k = choose|k: int| 0 <= k < s.len() && (#[trigger] s[k])@ == id && forall|j: int| 0 <= j < k ==> (#[trigger] s[j])@ != id;
    assert(0 <= k < s.len() && s[k]@ == id);
    if k < i {
        assert(s[k]@ != id);
    }
    if k > i {
        assert(s[i]@ != id);
    }
}

/// Finds the first position of an identifier.
pub fn position_of(s: &Vec<String>, id: &str) -> (r: Option<usize>)
    ensures
        match first_pos(s@, id@) {
            Some(i) => 0 <= i < s.len() && r == Some(i as usize),
            None => r is None,
        },
{
    let mut i: usize = 0;
    while i < s.len()
        invariant
            i <= s@.len(),
            forall|j: int| 0 <= j < i ==> (#[trigger] s@[j])@ != id@,
        decreases s.len() - i,
    {
        if str_eq(s[i].as_str(), id) {
            proof {
                lemma_first_pos(s@, id@, i as int);
            }
            return Some(i);
        }
        i = i + 1;
    }
    None
}

/// The definition point of a value: one past the position of its defining
/// operation, one when that operation is not ordered, zero for unknown values.
pub open spec fn spec_definition_point(p: ImplProgram, v: Seq<char>) -> u64 {
    if !p.values@.contains_key(v) {
        0
    } else {
        match first_pos(p.operation_order@, origin_op(p.values@[v])) {
            Some(i) => (i + 1) as u64,
            None => 1,
        }
    }
}

/// Returns the canonical definition point of one value.
pub fn value_definition_point(program: &ImplProgram, value: &str) -> (r: u64)
    ensures
        r == spec_definition_point(*program, value@),
{
    let definition = match program.values.get(value) {
        Some(d) => d,
        None => {
            return 0;
        },
    };
    let ImplValueOrigin::Operation(operation) = &definition.origin;
    match position_of(&program.operation_order, operation.as_str()) {
        Some(i) => {
            let j = i + 1;
            j as u64
        },
        None => 1,
    }
}

/// The defining operation and definition point of a reuse result.
pub open spec fn spec_point_for_result(p: ImplProgram, v: Seq<char>) -> Result<(Seq<char>, u64), ErrorCode> {
    if !p.values@.contains_key(v) {
        Err(ErrorCode::MemoryEquivalenceUnproved)
    } else {
        let op = origin_op(p.values@[v]);
        match first_pos(p.operation_order@, op) {
            Some(i) => Ok((op, (i + 1) as u64)),
            None => Err(ErrorCode::MemoryEquivalenceUnproved),
        }
    }
}

/// Whether the defining operation of a reuse result, when the result has one,
/// exists in the implementation.
pub fn reuse_result_is_defined(implementation: &ImplProgram, result: &str) -> (r: bool)
    ensures
        r == reuse_result_defined(*implementation, result@),
{
    match operation_point_for_result(implementation, result) {
        Ok((operation, _)) => implementation.operations.contains_key(operation.as_str()),
        Err(_) => true,
    }
}

fn operation_point_for_result(implementation: &ImplProgram, result: &str) -> (r: AgentResult<(ImplOperationId, u64)>)
    ensures
        match spec_point_for_result(*implementation, result@) {
            Ok((op, point)) => r matches Ok(x) && x.0@ == op && x.1 == point,
            Err(c) => r matches Err(e) && e.code == c,
        },
{
    let definition = match implementation.values.get(result) {
        Some(d) => d,
        None => {
            return Err(memory_error(ErrorCode::MemoryEquivalenceUnproved, "reuse result does not exist in ImplIR"));
        },
    };
    let ImplValueOrigin::Operation(operation) = &definition.origin;
    match position_of(&implementation.operation_order, operation.as_str()) {
        Some(i) => {
            let j = i + 1;
            Ok((operation.clone(), j as u64))
        },
        None => Err(memory_error(ErrorCode::MemoryEquivalenceUnproved, "reuse result definition is absent from operation order")),
    }
}

// ---------------------------------------------------------------------------
// Static in-place reuse.

/// The type of a value, if the value exists.
pub open spec fn value_type(p: ImplProgram, v: Seq<char>) -> Option<TypeV> {
    if p.values@.contains_key(v) {
        Some(p.values@[v].ty@)
    } else {
        None
    }
}

/// Whether the alias check against `other` blocks an overwrite at `point`.
pub open spec fn blocks_overwrite(f: AliasFact, other: MemoryBuffer, point: u64) -> bool {
    f.provenance == AliasProvenance::UnverifiedClaim || ((f.relation == AliasRelation::MayAlias
        || f.relation == AliasRelation::PartialOverlap) && other.lifetime.first_point <= point
        && other.lifetime.last_use >= point)
}

/// Scans the active buffers from position `k` for a live region that may overlap `ib`.
pub open spec fn reuse_alias_scan(m: MemoryProgram, ib: MemoryBuffer, point: u64, k: nat) -> Option<ErrorCode>
    decreases m.buffers.kv().len() - k,
{
    if k >= m.buffers.kv().len() {
        None
    } else {
        let other = m.buffers.kv()[k as int].1;
        if other.id@ == ib.id@ {
            reuse_alias_scan(m, ib, point, k + 1)
        } else {
            match spec_alias_relation(m, ib.id@, other.id@) {
                Err(c) => Some(c),
                Ok(f) => if blocks_overwrite(f, other, point) {
                    Some(ErrorCode::AliasProofMissing)
                } else {
                    reuse_alias_scan(m, ib, point, k + 1)
                },
            }
        }
    }
}

/// Whether the access mode permits an overwrite.
pub open spec fn writable(a: AccessMode) -> bool {
    a == AccessMode::WriteOnly || a == AccessMode::ReadWrite
}

/// The first side condition of in-place reuse of `input` for `result` that
/// fails, or `None` when reuse is statically proved.
pub open spec fn reuse_failure(m: MemoryProgram, p: ImplProgram, input: Seq<char>, result: Seq<char>) -> Option<ErrorCode> {
    let it = value_type(p, input);
    if it is None || it != value_type(p, result) || !(it.unwrap() is Tensor) {
        Some(ErrorCode::InPlaceReuseUnsafe)
    } else {
        match bound_buffer(m, input) {
            None => Some(ErrorCode::BufferNotFound),
            Some(ibid) => if !m.fresh_baseline_buffers@.contains_key(result) {
                Some(ErrorCode::BufferNotFound)
            } else if !m.buffers@.contains_key(ibid) {
                Some(ErrorCode::BufferNotFound)
            } else {
                let ib = m.buffers@[ibid];
                let fresh = m.fresh_baseline_buffers@[result];
                if ib.layout@ != fresh.layout@ || ib.strides@ != fresh.strides@ || ib.alignment
                    < fresh.alignment {
                    Some(ErrorCode::InPlaceReuseUnsafe)
                } else if ib.ownership != Ownership::PlanOwned || !writable(ib.access) {
                    Some(ErrorCode::InPlaceReuseUnsafe)
                } else {
                    match spec_point_for_result(p, result) {
                        Err(c) => Some(c),
                        Ok((op, point)) => if !ids_contain(p.operations@[op].operands@, input) {
                            Some(ErrorCode::InPlaceReuseUnsafe)
                        } else if last_or_zero(spec_value_uses(p, input)) != point
                            || is_output_value(p, input) {
                            Some(ErrorCode::LifetimeViolation)
                        } else {
                            reuse_alias_scan(m, ib, point, 0)
                        }
                    }
                }
            }
        }
    }
}

/// The defining operation of a reuse result, when ordered, exists.
pub open spec fn reuse_result_defined(p: ImplProgram, result: Seq<char>) -> bool {
    spec_point_for_result(p, result) matches Ok((op, _)) ==> p.operations@.contains_key(op)
}

/// The side conditions certified by a successful static reuse proof.
pub open spec fn reuse_conditions() -> Seq<Seq<char>> {
    seq![
        "identical element type and shape"@,
        "compatible layout, strides, and alignment"@,
        "writable plan-owned input"@,
        "input last use equals overwrite point"@,
        "no live overlapping reader"@,
    ]
}

fn optional_type_same(a: Option<&crate::impl_ir::ImplValue>, b: Option<&crate::impl_ir::ImplValue>) -> (r: bool)
    ensures
        r == (match (a, b) {
            (Some(x), Some(y)) => x.ty@ == y.ty@,
            (None, None) => true,
            _ => false,
        }),
{
    match (a, b) {
        (Some(x), Some(y)) => x.ty.same(&y.ty),
        (None, None) => true,
        _ => false,
    }
}

/// Rejects reuse of `ib` at `point` when a live region may overlap it.
fn check_no_live_overlap(memory: &MemoryProgram, input_buffer: &MemoryBuffer, point: u64) -> (r: AgentResult<()>)
    ensures
        r is Ok <==> reuse_alias_scan(*memory, *input_buffer, point, 0) is None,
        r matches Err(e) ==> Some(e.code) == reuse_alias_scan(*memory, *input_buffer, point, 0),
{
    let n = memory.buffers.len();
    let mut k: usize = 0;
    while k < n
        invariant
            n == memory.buffers.kv().len(),
            k <= n,
            reuse_alias_scan(*memory, *input_buffer, point, 0) == reuse_alias_scan(*memory, *input_buffer, point, k as nat),
        decreases n - k,
    {
        let (_, other) = memory.buffers.entry_at(k);
        if !str_eq(other.id.as_str(), input_buffer.id.as_str()) {
            let fact = alias_relation(memory, input_buffer.id.as_str(), other.id.as_str())?;
            let blocked = match fact.provenance {
                AliasProvenance::UnverifiedClaim => true,
                _ => match fact.relation {
                    AliasRelation::MayAlias | AliasRelation::PartialOverlap => other.lifetime.first_point <= point && other.lifetime.last_use >= point,
                    _ => false,
                },
            };
            if blocked {
                return Err(memory_error(ErrorCode::AliasProofMissing, "a live reader may overlap the requested overwrite region").with_repair("choose fresh allocation or request compiler-owned guarded reuse"));
            }
        }
        k = k + 1;
    }
    Ok(())
}

/// Proves the static side conditions for reusing one input region for one result.
#[verifier::rlimit(50)]
pub fn prove_static_reuse(
    memory: &MemoryProgram,
    implementation: &ImplProgram,
    input: &str,
    result: &str,
) -> (r: AgentResult<Vec<String>>)
    requires
        reuse_result_defined(*implementation, result@),
    ensures
        r is Ok <==> reuse_failure(*memory, *implementation, input@, result@) is None,
        r matches Err(e) ==> Some(e.code) == reuse_failure(*memory, *implementation, input@, result@),
        r matches Ok(v) ==> v@.map_values(|s: String| s@) == reuse_conditions(),
{
    let input_value = implementation.values.get(input);
    let result_value = implementation.values.get(result);
    let input_is_tensor = match input_value {
        Some(v) => v.ty.is_tensor(),
        None => false,
    };
    if input_value.is_none() || !optional_type_same(input_value, result_value) || !input_is_tensor {
        return Err(memory_error(ErrorCode::InPlaceReuseUnsafe, "in-place reuse requires identical tensor element type and shape").with_repair("choose fresh allocation"));
    }
    let input_buffer_id = match memory.bindings.get(input) {
        Some(b) => match b.buffer() {
            Some(id) => id,
            None => {
                return Err(memory_error(ErrorCode::BufferNotFound, "reuse input has no buffer"));
            },
        },
        None => {
            return Err(memory_error(ErrorCode::BufferNotFound, "reuse input has no buffer"));
        },
    };
    let fresh_result = match memory.fresh_baseline_buffers.get(result) {
        Some(f) => f,
        None => {
            return Err(memory_error(ErrorCode::BufferNotFound, "reuse result has no fresh baseline buffer"));
        },
    };
    let input_buffer = match memory.buffers.get(input_buffer_id.as_str()) {
        Some(b) => b,
        None => {
            return Err(memory_error(ErrorCode::BufferNotFound, "reuse input buffer is not active"));
        },
    };
    if !input_buffer.layout.same(&fresh_result.layout) || !input_buffer.strides.same(&fresh_result.strides)
        || input_buffer.alignment < fresh_result.alignment {
        return Err(memory_error(ErrorCode::InPlaceReuseUnsafe, "reuse input layout, strides, or alignment are incompatible").with_repair("choose fresh allocation or restore a compatible layout"));
    }
    let is_writable = match input_buffer.access {
        AccessMode::WriteOnly | AccessMode::ReadWrite => true,
        AccessMode::ReadOnly => false,
    };
    if input_buffer.ownership != Ownership::PlanOwned || !is_writable {
        return Err(memory_error(ErrorCode::InPlaceReuseUnsafe, "reuse input is not writable plan-owned storage").with_repair("choose fresh allocation"));
    }
    let (operation_id, point) = operation_point_for_result(implementation, result)?;
    let operation = match implementation.operations.get(operation_id.as_str()) {
        Some(op) => op,
        None => {
            proof {
                assert(false);
            }
            return Err(memory_error(ErrorCode::MemoryEquivalenceUnproved, "reuse operation is missing"));
        },
    };
    if !crate::impl_ir::contains_id(&operation.operands, input) {
        return Err(memory_error(ErrorCode::InPlaceReuseUnsafe, "reuse input is not an operand of the result-defining operation"));
    }
    let logical_input_uses = value_uses(implementation, input);
    let logical_input_last_use = if logical_input_uses.len() == 0 {
        0
    } else {
        logical_input_uses[logical_input_uses.len() - 1]
    };
    let logical_input_escapes = output_returns(implementation, input);
    if logical_input_last_use != point || logical_input_escapes {
        return Err(memory_error(ErrorCode::LifetimeViolation, "reuse input remains live after the overwrite point").with_repair("choose fresh allocation"));
    }
    check_no_live_overlap(memory, input_buffer, point)?;
    let mut conditions: Vec<String> = Vec::new();
    conditions.push(String::from_str("identical element type and shape"));
    conditions.push(String::from_str("compatible layout, strides, and alignment"));
    conditions.push(String::from_str("writable plan-owned input"));
    conditions.push(String::from_str("input last use equals overwrite point"));
    conditions.push(String::from_str("no live overlapping reader"));
    assert(conditions@.map_values(|s: String| s@) =~= reuse_conditions());
    Ok(conditions)
}

/// Reuses the full structural proof path to answer whether one input can store one result.
pub fn can_reuse(memory: &MemoryProgram, implementation: &ImplProgram, input: &str, result: &str) -> (r: bool)
    requires
        reuse_result_defined(*implementation, result@),
    ensures
        r == (reuse_failure(*memory, *implementation, input@, result@) is None),
{
    prove_static_reuse(memory, implementation, input, result).is_ok()
}

// ---------------------------------------------------------------------------
// Compiler-owned alias facts.

/// Model of an alias fact.
pub open spec fn fact_view(f: AliasFact) -> (Seq<char>, Seq<char>, AliasRelation, AliasProvenance) {
    (f.first@, f.second@, f.relation, f.provenance)
}

/// The relation and provenance derived for buffers at positions `i <= j`.
pub open spec fn derived_alias(kv: Seq<(Seq<char>, MemoryBuffer)>, i: int, j: int) -> (AliasRelation, AliasProvenance) {
    let left = kv[i].1;
    let right = kv[j].1;
    if kv[i].0 == kv[j].0 {
        (AliasRelation::MustAlias, AliasProvenance::ProvedFromType)
    } else if left.alias_domain@ == right.alias_domain@ {
        (AliasRelation::MayAlias, AliasProvenance::ProvedFromRegionConstruction)
    } else if left.ownership == Ownership::ExternalBorrowed && right.ownership == Ownership::ExternalBorrowed {
        (AliasRelation::MayAlias, AliasProvenance::ProvedFromExternalContract)
    } else {
        (AliasRelation::NoAlias, AliasProvenance::ProvedFromRegionConstruction)
    }
}

/// The facts for the pairs `(i, j), (i, j + 1), ..., (i + 1, i + 1), ...` in canonical order.
pub open spec fn facts_from(kv: Seq<(Seq<char>, MemoryBuffer)>, i: nat, j: nat) -> Seq<(Seq<char>, Seq<char>, AliasRelation, AliasProvenance)>
    decreases kv.len() - i, kv.len() - j,
{
    if i >= kv.len() {
        Seq::empty()
    } else if j >= kv.len() {
        facts_from(kv, i + 1, i + 1)
    } else {
        let (rel, prov) = derived_alias(kv, i as int, j as int);
        seq![(kv[i as int].0, kv[j as int].0, rel, prov)] + facts_from(kv, i, j + 1)
    }
}

/// The canonical alias facts of a set of buffers: one fact per unordered
/// pair (including each buffer with itself), in buffer-ID order.
pub open spec fn expected_alias_facts(buffers: IdMap<MemoryBuffer>) -> Seq<(Seq<char>, Seq<char>, AliasRelation, AliasProvenance)> {
    facts_from(buffers.kv(), 0, 0)
}

proof fn lemma_facts_from_pairs(kv: Seq<(Seq<char>, MemoryBuffer)>, i: nat, j: nat, k: int)
    requires
        i <= j,
        0 <= k < facts_from(kv, i, j).len(),
    ensures
        exists|p: int, q: int|
            #![trigger kv[p], kv[q]]
            i <= p <= q < kv.len() && facts_from(kv, i, j)[k] == (kv[p].0, kv[q].0, derived_alias(kv, p, q).0, derived_alias(
                kv,
                p,
                q,
            ).1),
    decreases kv.len() - i, kv.len() - j,
{
    if i >= kv.len() {
    } else if j >= kv.len() {
        lemma_facts_from_pairs(kv, i + 1, i + 1, k);
    } else {
        let (rel, prov) = derived_alias(kv, i as int, j as int);
        let head = seq![(kv[i as int].0, kv[j as int].0, rel, prov)];
        let rest = facts_from(kv, i, j + 1);
        assert(facts_from(kv, i, j) == head + rest);
        if k == 0 {
            assert(facts_from(kv, i, j)[k] == head[0]);
            let p = i as int;
            let q = j as int;
            assert(kv[p] == kv[p] && kv[q] == kv[q]);
        } else {
            assert(facts_from(kv, i, j)[k] == rest[k - 1]);
            lemma_facts_from_pairs(kv, i, j + 1, k - 1);
        }
    }
}

/// The derived alias facts of a buffer table never claim more disjointness
/// than the buffers allow: each fact relates two buffers of the table; a
/// buffer must-aliases itself; two distinct buffers of one alias domain, or
/// two distinct buffers both borrowed from the caller, may alias; and two
/// distinct buffers are claimed disjoint only when they lie in different
/// alias domains and are not both borrowed from the caller.
pub proof fn law_alias_facts_are_conservative(buffers: IdMap<MemoryBuffer>, k: int)
    requires
        0 <= k < expected_alias_facts(buffers).len(),
    ensures
        exists|p: int, q: int|
            #![trigger buffers.kv()[p], buffers.kv()[q]]
            {
                let kv = buffers.kv();
                let fact = expected_alias_facts(buffers)[k];
                let x = kv[p].1;
                let y = kv[q].1;
                &&& 0 <= p <= q < kv.len()
                &&& fact.0 == kv[p].0
                &&& fact.1 == kv[q].0
                &&& kv[p].0 == kv[q].0 ==> fact.2 == AliasRelation::MustAlias
                &&& kv[p].0 != kv[q].0 && x.alias_domain@ == y.alias_domain@ ==> fact.2 == AliasRelation::MayAlias
                &&& kv[p].0 != kv[q].0 && x.ownership == Ownership::ExternalBorrowed && y.ownership == Ownership::ExternalBorrowed
                    ==> fact.2 == AliasRelation::MayAlias
                &&& fact.2 == AliasRelation::NoAlias ==> kv[p].0 != kv[q].0 && x.alias_domain@ != y.alias_domain@ && !(x.ownership
                    == Ownership::ExternalBorrowed && y.ownership == Ownership::ExternalBorrowed)
            },
{
    lemma_facts_from_pairs(buffers.kv(), 0, 0, k);
}

/// Derives the canonical alias facts of the active buffers.
pub fn derive_alias_facts(buffers: &IdMap<MemoryBuffer>) -> (r: Vec<AliasFact>)
    ensures
        r@.map_values(|f: AliasFact| fact_view(f)) == expected_alias_facts(*buffers),
{
    let n = buffers.len();
    let mut facts: Vec<AliasFact> = Vec::new();
    let ghost kv = buffers.kv();
    let mut i: usize = 0;
    assert(facts@.map_values(|f: AliasFact| fact_view(f)) + facts_from(kv, 0, 0) =~= expected_alias_facts(*buffers));
    while i < n
        invariant
            n == kv.len(),
            kv == buffers.kv(),
            i <= n,
            facts@.map_values(|f: AliasFact| fact_view(f)) + facts_from(kv, i as nat, i as nat) == expected_alias_facts(*buffers),
        decreases n - i,
    {
        let mut j: usize = i;
        while j < n
            invariant
                n == kv.len(),
                kv == buffers.kv(),
                i < n,
                i <= j <= n,
                facts@.map_values(|f: AliasFact| fact_view(f)) + facts_from(kv, i as nat, j as nat) == expected_alias_facts(*buffers),
            decreases n - j,
        {
            let (first, left) = buffers.entry_at(i);
            let (second, right) = buffers.entry_at(j);
            let (relation, provenance) = if str_eq(first.as_str(), second.as_str()) {
                (AliasRelation::MustAlias, AliasProvenance::ProvedFromType)
            } else if str_eq(left.alias_domain.as_str(), right.alias_domain.as_str()) {
                (AliasRelation::MayAlias, AliasProvenance::ProvedFromRegionConstruction)
            } else if left.ownership == Ownership::ExternalBorrowed && right.ownership == Ownership::ExternalBorrowed {
                (AliasRelation::MayAlias, AliasProvenance::ProvedFromExternalContract)
            } else {
                (AliasRelation::NoAlias, AliasProvenance::ProvedFromRegionConstruction)
            };
            let ghost before = facts@.map_values(|f: AliasFact| fact_view(f));
            let fact = AliasFact { first: first.clone(), second: second.clone(), relation, provenance };
            let ghost fv = fact_view(fact);
            facts.push(fact);
            proof {
                assert(facts@.map_values(|f: AliasFact| fact_view(f)) =~= before.push(fv));
                assert(facts_from(kv, i as nat, j as nat) == seq![fv] + facts_from(kv, i as nat, (j + 1) as nat));
                assert(before.push(fv) + facts_from(kv, i as nat, (j + 1) as nat) =~= before + (seq![fv] + facts_from(kv, i as nat, (j + 1) as nat)));
            }
            j = j + 1;
        }
        proof {
            assert(facts_from(kv, i as nat, n as nat) == facts_from(kv, (i + 1) as nat, (i + 1) as nat));
        }
        i = i + 1;
    }
    proof {
        let fv = facts@.map_values(|f: AliasFact| fact_view(f));
        assert(fv + facts_from(kv, n as nat, n as nat) =~= fv);
    }
    facts
}

/// Recomputes the canonical compiler-owned alias facts of a memory program.
pub fn recompute_alias_facts(memory: &mut MemoryProgram)
    ensures
        final(memory).alias_facts@.map_values(|f: AliasFact| fact_view(f)) == expected_alias_facts(old(memory).buffers),
        final(memory).buffers == old(memory).buffers,
        final(memory).bindings == old(memory).bindings,
        final(memory).operations == old(memory).operations,
        final(memory).outputs == old(memory).outputs,
        final(memory).fresh_baseline_buffers == old(memory).fresh_baseline_buffers,
        final(memory).operation_order == old(memory).operation_order,
        final(memory).operation_for_impl == old(memory).operation_for_impl,
        final(memory).alias_domains == old(memory).alias_domains,
        final(memory).reuse_decisions == old(memory).reuse_decisions,
{
    let facts = derive_alias_facts(&memory.buffers);
    memory.alias_facts = facts;
}

// ---------------------------------------------------------------------------
// Logical lifetimes.

/// Inserts `x` into a strictly increasing vector, keeping it strictly increasing.
pub fn insert_sorted_unique(v: &mut Vec<u64>, x: u64)
    requires
        strictly_increasing(old(v)@),
    ensures
        strictly_increasing(final(v)@),
        final(v)@.to_set() == old(v)@.to_set().insert(x),
{
    let mut i: usize = 0;
    while i < v.len() && v[i] < x
        invariant
            i <= v@.len(),
            v@ == old(v)@,
            forall|j: int| 0 <= j < i ==> #[trigger] v@[j] < x,
        decreases v.len() - i,
    {
        i = i + 1;
    }
    let ghost o = v@;
    if i < v.len() && v[i] == x {
        assert(o.to_set().insert(x) =~= o.to_set()) by {
            assert(o.contains(x) && o[i as int] == x);
        }
        return;
    }
    v.insert(i, x);
    proof {
        let n = v@;
        assert(n =~= o.insert(i as int, x));
        assert forall|a: int, b: int| 0 <= a < b < n.len() implies #[trigger] n[a] < #[trigger] n[b] by {
            if b < i {
                assert(n[a] == o[a] && n[b] == o[b]);
            } else if b == i {
                assert(n[a] == o[a]);
            } else if a == i {
                assert(n[b] == o[b - 1]);
                assert(o[i as int] >= x);
                if b - 1 > i {
                    assert(o[i as int] < o[b - 1]);
                }
                assert(o[i as int] != x);
            } else if a < i {
                assert(n[a] == o[a] && n[b] == o[b - 1]);
                assert(o[a] < x);
                assert(o[i as int] >= x);
                if b - 1 > i {
                    assert(o[i as int] < o[b - 1]);
                }
            } else {
                assert(n[a] == o[a - 1] && n[b] == o[b - 1]);
            }
        }
        assert(n.to_set() =~= o.to_set().insert(x)) by {
            assert forall|y: u64| n.to_set().contains(y) <==> o.to_set().insert(x).contains(y) by {
                if n.contains(y) {
                    let k = choose|k: int| 0 <= k < n.len() && n[k] == y;
                    if k < i {
                        assert(o[k] == y);
                    } else if k > i {
                        assert(o[k - 1] == y);
                    }
                }
                if o.contains(y) {
                    let k = choose|k: int| 0 <= k < o.len() && o[k] == y;
                    if k < i {
                        assert(n[k] == y);
                    } else {
                        assert(n[k + 1] == y);
                    }
                }
                if y == x {
                    assert(n[i as int] == x);
                }
            }
        }
    }
}

/// The smaller of an optional minimum and a new point.
pub open spec fn min_opt(m: Option<u64>, x: u64) -> Option<u64> {
    match m {
        None => Some(x),
        Some(a) => Some(if a <= x { a } else { x }),
    }
}

/// Folds the values bound to buffer `b` among bindings `k..`: their use
/// points, their least definition point, and whether one escapes as output.
pub open spec fn lifetime_fold(bkv: Seq<(Seq<char>, MemoryBinding)>, p: ImplProgram, b: Seq<char>, k: nat) -> (Set<u64>, Option<u64>, bool)
    decreases bkv.len() - k,
{
    if k >= bkv.len() {
        (Set::empty(), None, false)
    } else {
        let rest = lifetime_fold(bkv, p, b, k + 1);
        let v = bkv[k as int].0;
        if bkv[k as int].1.buffer_id() == Some(b) {
            (
                spec_value_uses(p, v).to_set().union(rest.0),
                match rest.1 {
                    None => Some(spec_definition_point(p, v)),
                    Some(m) => min_opt(Some(spec_definition_point(p, v)), m),
                },
                is_output_value(p, v) || rest.2,
            )
        } else {
            rest
        }
    }
}

/// Whether `l` is the compiler-derived lifetime of buffer `buffer` (key `b`).
pub open spec fn is_derived_lifetime(m: MemoryProgram, p: ImplProgram, b: Seq<char>, buffer: MemoryBuffer, l: Lifetime) -> bool {
    let (uses, first, escape) = lifetime_fold(m.bindings.kv(), p, b, 0);
    &&& strictly_increasing(l.uses@)
    &&& l.uses@.to_set() == uses
    &&& l.first_point == (match first {
        Some(x) => x,
        None => 0,
    })
    &&& l.last_use == (if l.uses@.len() > 0 {
        l.uses@.last()
    } else {
        l.first_point
    })
    &&& l.output_escape == escape
    &&& l.external == (buffer.ownership == Ownership::ExternalBorrowed)
    &&& l.deallocation_eligible == (!l.external && !escape)
}

/// Computes the logical lifetime of the buffer with key `b`.
pub fn derive_lifetime(memory: &MemoryProgram, implementation: &ImplProgram, b: &str, buffer: &MemoryBuffer) -> (r: Lifetime)
    ensures
        is_derived_lifetime(*memory, *implementation, b@, *buffer, r),
{
    let ghost bkv = memory.bindings.kv();
    let n = memory.bindings.len();
    let mut uses: Vec<u64> = Vec::new();
    let mut first: Option<u64> = None;
    let mut escape = false;
    let mut k: usize = 0;
    let ghost total = lifetime_fold(bkv, *implementation, b@, 0);
    assert(uses@.to_set() =~= Set::<u64>::empty());
    while k < n
        invariant
            n == bkv.len(),
            bkv == memory.bindings.kv(),
            total == lifetime_fold(bkv, *implementation, b@, 0),
            k <= n,
            strictly_increasing(uses@),
            total.0 == uses@.to_set().union(lifetime_fold(bkv, *implementation, b@, k as nat).0),
            total.1 == (match (first, lifetime_fold(bkv, *implementation, b@, k as nat).1) {
                (None, x) => x,
                (Some(a), None) => Some(a),
                (Some(a), Some(c)) => min_opt(Some(a), c),
            }),
            total.2 == (escape || lifetime_fold(bkv, *implementation, b@, k as nat).2),
        decreases n - k,
    {
        let (key, binding) = memory.bindings.entry_at(k);
        let bound_here = match binding.buffer() {
            Some(id) => str_eq(id.as_str(), b),
            None => false,
        };
        if bound_here {
            let value_points = value_uses(implementation, key.as_str());
            let ghost before = uses@.to_set();
            let mut t: usize = 0;
            while t < value_points.len()
                invariant
                    t <= value_points@.len(),
                    strictly_increasing(uses@),
                    uses@.to_set() == before.union(value_points@.take(t as int).to_set()),
                decreases value_points.len() - t,
            {
                insert_sorted_unique(&mut uses, value_points[t]);
                proof {
                    assert(value_points@.take(t + 1) =~= value_points@.take(t as int).push(value_points@[t as int]));
                    value_points@.take(t as int).lemma_push_to_set_commute(value_points@[t as int]);
                    assert(value_points@.take(t + 1).to_set() =~= value_points@.take(t as int).to_set().insert(value_points@[t as int]));
                }
                t = t + 1;
            }
            proof {
                assert(value_points@.take(value_points@.len() as int) =~= value_points@);
            }
            let point = value_definition_point(implementation, key.as_str());
            first = match first {
                None => Some(point),
                Some(a) => Some(if a <= point { a } else { point }),
            };
            escape = escape || output_returns(implementation, key.as_str());
            proof {
                let rest = lifetime_fold(bkv, *implementation, b@, (k + 1) as nat);
                assert(uses@.to_set().union(rest.0) =~= before.union(spec_value_uses(*implementation, key@).to_set().union(rest.0)));
            }
        }
        k = k + 1;
    }
    proof {
        assert(uses@.to_set().union(Set::<u64>::empty()) =~= uses@.to_set());
    }
    let first_point = match first {
        Some(x) => x,
        None => 0,
    };
    let last = if uses.len() > 0 {
        uses[uses.len() - 1]
    } else {
        first_point
    };
    let external = buffer.ownership == Ownership::ExternalBorrowed;
    Lifetime {
        first_point,
        uses,
        last_use: last,
        output_escape: escape,
        external,
        deallocation_eligible: !external && !escape,
    }
}

/// The content of an optional string.
pub open spec fn opt_view(o: Option<String>) -> Option<Seq<char>> {
    match o {
        Some(s) => Some(s@),
        None => None,
    }
}

fn copy_opt_string(o: &Option<String>) -> (r: Option<String>)
    ensures
        opt_view(r) == opt_view(*o),
{
    match o {
        Some(s) => Some(s.clone()),
        None => None,
    }
}

/// Whether two buffers agree on every field except the lifetime.
pub open spec fn same_except_lifetime(a: MemoryBuffer, b: MemoryBuffer) -> bool {
    &&& a.id@ == b.id@
    &&& a.element_type == b.element_type
    &&& a.shape@ == b.shape@
    &&& a.layout@ == b.layout@
    &&& a.strides@ == b.strides@
    &&& a.address_space == b.address_space
    &&& a.access == b.access
    &&& a.alignment == b.alignment
    &&& a.alias_domain@ == b.alias_domain@
    &&& a.ownership == b.ownership
    &&& opt_view(a.external_binding) == opt_view(b.external_binding)
    &&& a.source_value@ == b.source_value@
    &&& a.offset_elements == b.offset_elements
    &&& a.provenance@ == b.provenance@
}

/// Whether two lifetimes agree.
pub open spec fn lifetime_same(a: Lifetime, b: Lifetime) -> bool {
    a.first_point == b.first_point && a.uses@ == b.uses@ && a.last_use == b.last_use
        && a.output_escape == b.output_escape && a.external == b.external
        && a.deallocation_eligible == b.deallocation_eligible
}

/// Whether two buffers agree on every field.
pub open spec fn buffer_same(a: MemoryBuffer, b: MemoryBuffer) -> bool {
    same_except_lifetime(a, b) && lifetime_same(a.lifetime, b.lifetime)
}

impl MemoryLayout {
    /// Copies the layout.
    pub fn copy(&self) -> (r: Self)
        ensures
            r@ == self@,
    {
        match self {
            MemoryLayout::ContiguousRowMajor => MemoryLayout::ContiguousRowMajor,
            MemoryLayout::ExplicitStrided { strides } => MemoryLayout::ExplicitStrided { strides: strides.copy() },
        }
    }
}

impl MemoryBuffer {
    /// Copies the buffer, replacing its lifetime.
    pub fn with_lifetime(&self, lifetime: Lifetime) -> (r: Self)
        ensures
            same_except_lifetime(r, *self),
            r.lifetime == lifetime,
    {
        MemoryBuffer {
            id: self.id.clone(),
            element_type: self.element_type,
            shape: self.shape.copy(),
            layout: self.layout.copy(),
            strides: self.strides.copy(),
            address_space: self.address_space,
            access: self.access,
            alignment: self.alignment,
            alias_domain: self.alias_domain.clone(),
            lifetime,
            ownership: self.ownership,
            external_binding: copy_opt_string(&self.external_binding),
            source_value: self.source_value.clone(),
            offset_elements: self.offset_elements,
            provenance: self.provenance.clone(),
        }
    }
}

/// Whether `new` holds the buffers of `m` with their lifetimes recomputed.
pub open spec fn lifetimes_recomputed(m: MemoryProgram, p: ImplProgram, new: IdMap<MemoryBuffer>) -> bool {
    &&& new.kv().len() == m.buffers.kv().len()
    &&& forall|i: int| 0 <= i < new.kv().len() ==> {
        &&& (#[trigger] new.kv()[i]).0 == m.buffers.kv()[i].0
        &&& same_except_lifetime(new.kv()[i].1, m.buffers.kv()[i].1)
        &&& is_derived_lifetime(m, p, m.buffers.kv()[i].0, m.buffers.kv()[i].1, new.kv()[i].1.lifetime)
    }
}

/// Recomputes the logical lifetime of every active buffer.
pub fn recompute_lifetimes(memory: &MemoryProgram, implementation: &ImplProgram) -> (r: IdMap<MemoryBuffer>)
    ensures
        lifetimes_recomputed(*memory, *implementation, r),
{
    let n = memory.buffers.len();
    let mut out: IdMap<MemoryBuffer> = IdMap::new();
    let mut i: usize = 0;
    while i < n
        invariant
            n == memory.buffers.kv().len(),
            sorted_kv(memory.buffers.kv()),
            i <= n,
            out.kv().len() == i,
            forall|j: int| 0 <= j < i ==> {
                &&& (#[trigger] out.kv()[j]).0 == memory.buffers.kv()[j].0
                &&& same_except_lifetime(out.kv()[j].1, memory.buffers.kv()[j].1)
                &&& is_derived_lifetime(*memory, *implementation, memory.buffers.kv()[j].0, memory.buffers.kv()[j].1, out.kv()[j].1.lifetime)
            },
        decreases n - i,
    {
        let (key, buffer) = memory.buffers.entry_at(i);
        let lifetime = derive_lifetime(memory, implementation, key.as_str(), buffer);
        let updated = buffer.with_lifetime(lifetime);
        proof {
            if i > 0 {
                assert(seq_less(memory.buffers.kv()[i - 1].0, memory.buffers.kv()[i as int].0));
            }
        }
        out.push_ordered(key.clone(), updated);
        i = i + 1;
    }
    out
}

// ---------------------------------------------------------------------------
// Operation bindings and buffer accesses.

/// Model of a binding: the value and, for tensors, the buffer.
pub open spec fn binding_view(b: MemoryBinding) -> (Seq<char>, Option<Seq<char>>) {
    (b.value_id(), b.buffer_id())
}

/// Model of an access.
pub open spec fn access_view(a: BufferAccess) -> (Seq<char>, Seq<char>, BufferAccessKind, Seq<char>) {
    (a.buffer@, a.value@, a.kind, a.typed_index@)
}

/// Model of a memory operation.
pub open spec fn op_view(o: MemoryOperation) -> (Seq<char>, Seq<char>, Seq<char>, Seq<(Seq<char>, Option<Seq<char>>)>, Seq<(Seq<char>, Option<Seq<char>>)>, Seq<(Seq<char>, Seq<char>, BufferAccessKind, Seq<char>)>) {
    (
        o.id@,
        o.impl_operation@,
        o.opcode@,
        o.operands@.map_values(|b: MemoryBinding| binding_view(b)),
        o.results@.map_values(|b: MemoryBinding| binding_view(b)),
        o.accesses@.map_values(|a: BufferAccess| access_view(a)),
    )
}

/// Whether some binding of a sequence uses buffer `buf`.
pub open spec fn uses_buffer(bs: Seq<(Seq<char>, Option<Seq<char>>)>, buf: Seq<char>) -> bool {
    exists|i: int| 0 <= i < bs.len() && (#[trigger] bs[i]).1 == Some(buf)
}

/// Read accesses of operand bindings `k..`.
pub open spec fn operand_accesses(ops: Seq<(Seq<char>, Option<Seq<char>>)>, res: Seq<(Seq<char>, Option<Seq<char>>)>, k: nat) -> Seq<(Seq<char>, Seq<char>, BufferAccessKind, Seq<char>)>
    decreases ops.len() - k,
{
    if k >= ops.len() {
        Seq::empty()
    } else {
        let rest = operand_accesses(ops, res, k + 1);
        match ops[k as int].1 {
            Some(buf) => seq![(buf, ops[k as int].0, if uses_buffer(res, buf) {
                BufferAccessKind::ReadWrite
            } else {
                BufferAccessKind::Read
            }, "logical_index"@)] + rest,
            None => rest,
        }
    }
}

/// Write accesses of result bindings `k..` whose buffer no operand reads.
pub open spec fn result_accesses(ops: Seq<(Seq<char>, Option<Seq<char>>)>, res: Seq<(Seq<char>, Option<Seq<char>>)>, k: nat) -> Seq<(Seq<char>, Seq<char>, BufferAccessKind, Seq<char>)>
    decreases res.len() - k,
{
    if k >= res.len() {
        Seq::empty()
    } else {
        let rest = result_accesses(ops, res, k + 1);
        match res[k as int].1 {
            Some(buf) => if !uses_buffer(ops, buf) {
                seq![(buf, res[k as int].0, BufferAccessKind::Write, "logical_index"@)] + rest
            } else {
                rest
            },
            None => rest,
        }
    }
}

/// The compiler-derived accesses of an operation with the given bindings.
pub open spec fn derived_accesses(ops: Seq<(Seq<char>, Option<Seq<char>>)>, res: Seq<(Seq<char>, Option<Seq<char>>)>) -> Seq<(Seq<char>, Seq<char>, BufferAccessKind, Seq<char>)> {
    operand_accesses(ops, res, 0) + result_accesses(ops, res, 0)
}

impl MemoryBinding {
    /// Copies the binding.
    pub fn copy(&self) -> (r: Self)
        ensures
            binding_view(r) == binding_view(*self),
    {
        match self {
            MemoryBinding::Scalar { value } => MemoryBinding::Scalar { value: value.clone() },
            MemoryBinding::Buffer { value, buffer } => MemoryBinding::Buffer { value: value.clone(), buffer: buffer.clone() },
        }
    }
}

/// The bindings of the values `ids`, when every value is bound.
pub open spec fn bindings_of(m: MemoryProgram, ids: Seq<String>) -> Option<Seq<(Seq<char>, Option<Seq<char>>)>> {
    if forall|i: int| 0 <= i < ids.len() ==> m.bindings@.contains_key((#[trigger] ids[i])@) {
        Some(ids.map_values(|v: String| binding_view(m.bindings@[v@])))
    } else {
        None
    }
}

fn collect_bindings(memory: &MemoryProgram, ids: &Vec<String>) -> (r: Option<Vec<MemoryBinding>>)
    ensures
        match bindings_of(*memory, ids@) {
            Some(bs) => r matches Some(v) && v@.map_values(|b: MemoryBinding| binding_view(b)) == bs,
            None => r is None,
        },
{
    let mut out: Vec<MemoryBinding> = Vec::new();
    let mut i: usize = 0;
    while i < ids.len()
        invariant
            i <= ids@.len(),
            out@.len() == i,
            forall|j: int| 0 <= j < i ==> memory.bindings@.contains_key((#[trigger] ids@[j])@),
            forall|j: int| 0 <= j < i ==> binding_view(#[trigger] out@[j]) == binding_view(memory.bindings@[ids@[j]@]),
        decreases ids.len() - i,
    {
        match memory.bindings.get(ids[i].as_str()) {
            Some(b) => {
                out.push(b.copy());
            },
            None => {
                return None;
            },
        }
        i = i + 1;
    }
    assert(out@.map_values(|b: MemoryBinding| binding_view(b)) =~= ids@.map_values(|v: String| binding_view(memory.bindings@[v@])));
    Some(out)
}

fn bindings_use_buffer(bs: &Vec<MemoryBinding>, buf: &str) -> (r: bool)
    ensures
        r == uses_buffer(bs@.map_values(|b: MemoryBinding| binding_view(b)), buf@),
{
    let ghost v = bs@.map_values(|b: MemoryBinding| binding_view(b));
    let mut i: usize = 0;
    while i < bs.len()
        invariant
            v == bs@.map_values(|b: MemoryBinding| binding_view(b)),
            i <= bs@.len(),
            forall|j: int| 0 <= j < i ==> (#[trigger] v[j]).1 != Some(buf@),
        decreases bs.len() - i,
    {
        match bs[i].buffer() {
            Some(b) => {
                if str_eq(b.as_str(), buf) {
                    assert(v[i as int].1 == Some(buf@));
                    return true;
                }
            },
            None => {},
        }
        i = i + 1;
    }
    false
}

/// Derives the typed accesses of an operation from its bindings.
pub fn derive_accesses(operands: &Vec<MemoryBinding>, results: &Vec<MemoryBinding>) -> (r: Vec<BufferAccess>)
    ensures
        r@.map_values(|a: BufferAccess| access_view(a)) == derived_accesses(
            operands@.map_values(|b: MemoryBinding| binding_view(b)),
            results@.map_values(|b: MemoryBinding| binding_view(b)),
        ),
{
    let ghost ov = operands@.map_values(|b: MemoryBinding| binding_view(b));
    let ghost rv = results@.map_values(|b: MemoryBinding| binding_view(b));
    let mut accesses: Vec<BufferAccess> = Vec::new();
    let mut i: usize = 0;
    assert(accesses@.map_values(|a: BufferAccess| access_view(a)) + operand_accesses(ov, rv, 0) =~= operand_accesses(ov, rv, 0));
    while i < operands.len()
        invariant
            ov == operands@.map_values(|b: MemoryBinding| binding_view(b)),
            rv == results@.map_values(|b: MemoryBinding| binding_view(b)),
            i <= operands@.len(),
            accesses@.map_values(|a: BufferAccess| access_view(a)) + operand_accesses(ov, rv, i as nat) == operand_accesses(ov, rv, 0),
        decreases operands.len() - i,
    {
        let binding = &operands[i];
        match binding.buffer() {
            Some(buffer) => {
                let kind = if bindings_use_buffer(results, buffer.as_str()) {
                    BufferAccessKind::ReadWrite
                } else {
                    BufferAccessKind::Read
                };
                let ghost before = accesses@.map_values(|a: BufferAccess| access_view(a));
                let access = BufferAccess { buffer: buffer.clone(), value: binding.value().clone(), kind, typed_index: String::from_str("logical_index") };
                let ghost av = access_view(access);
                accesses.push(access);
                proof {
                    assert(accesses@.map_values(|a: BufferAccess| access_view(a)) =~= before.push(av));
                    assert(before.push(av) + operand_accesses(ov, rv, (i + 1) as nat) =~= before + (seq![av] + operand_accesses(ov, rv, (i + 1) as nat)));
                }
            },
            None => {},
        }
        i = i + 1;
    }
    let ghost first_part = accesses@.map_values(|a: BufferAccess| access_view(a));
    assert(first_part =~= operand_accesses(ov, rv, 0)) by {
        assert(first_part + operand_accesses(ov, rv, operands@.len() as nat) =~= first_part);
    }
    let mut k: usize = 0;
    assert(first_part + result_accesses(ov, rv, 0) =~= derived_accesses(ov, rv));
    while k < results.len()
        invariant
            ov == operands@.map_values(|b: MemoryBinding| binding_view(b)),
            rv == results@.map_values(|b: MemoryBinding| binding_view(b)),
            k <= results@.len(),
            accesses@.map_values(|a: BufferAccess| access_view(a)) + result_accesses(ov, rv, k as nat) == derived_accesses(ov, rv),
        decreases results.len() - k,
    {
        let binding = &results[k];
        match binding.buffer() {
            Some(buffer) => {
                if !bindings_use_buffer(operands, buffer.as_str()) {
                    let ghost before = accesses@.map_values(|a: BufferAccess| access_view(a));
                    let access = BufferAccess { buffer: buffer.clone(), value: binding.value().clone(), kind: BufferAccessKind::Write, typed_index: String::from_str("logical_index") };
                    let ghost av = access_view(access);
                    accesses.push(access);
                    proof {
                        assert(accesses@.map_values(|a: BufferAccess| access_view(a)) =~= before.push(av));
                        assert(before.push(av) + result_accesses(ov, rv, (k + 1) as nat) =~= before + (seq![av] + result_accesses(ov, rv, (k + 1) as nat)));
                    }
                }
            },
            None => {},
        }
        k = k + 1;
    }
    proof {
        let fin = accesses@.map_values(|a: BufferAccess| access_view(a));
        assert(fin + result_accesses(ov, rv, results@.len() as nat) =~= fin);
    }
    accesses
}

/// The rebuilt model of memory operation `o`: its source ImplIR operation's
/// operand and result bindings and the accesses derived from them.
pub open spec fn spec_rebuilt_op(m: MemoryProgram, p: ImplProgram, o: MemoryOperation) -> Result<(Seq<char>, Seq<char>, Seq<char>, Seq<(Seq<char>, Option<Seq<char>>)>, Seq<(Seq<char>, Option<Seq<char>>)>, Seq<(Seq<char>, Seq<char>, BufferAccessKind, Seq<char>)>), ErrorCode> {
    if !p.operations@.contains_key(o.impl_operation@) {
        Err(ErrorCode::MemoryEquivalenceUnproved)
    } else {
        let src = p.operations@[o.impl_operation@];
        match (bindings_of(m, src.operands@), bindings_of(m, src.results@)) {
            (Some(ops), Some(res)) => Ok((o.id@, o.impl_operation@, o.opcode@, ops, res, derived_accesses(ops, res))),
            _ => Err(ErrorCode::MemoryEquivalenceUnproved),
        }
    }
}

/// Rebuilds one memory operation from its ImplIR source and the bindings.
pub fn rebuild_operation(memory: &MemoryProgram, implementation: &ImplProgram, op: &MemoryOperation) -> (r: AgentResult<MemoryOperation>)
    ensures
        match spec_rebuilt_op(*memory, *implementation, *op) {
            Ok(v) => r matches Ok(x) && op_view(x) == v,
            Err(c) => r matches Err(e) && e.code == c,
        },
{
    let source = match implementation.operations.get(op.impl_operation.as_str()) {
        Some(s) => s,
        None => {
            return Err(memory_error(ErrorCode::MemoryEquivalenceUnproved, "memory operation references a missing ImplIR operation"));
        },
    };
    let operands = match collect_bindings(memory, &source.operands) {
        Some(v) => v,
        None => {
            return Err(memory_error(ErrorCode::MemoryEquivalenceUnproved, "memory operation operand binding is missing"));
        },
    };
    let results = match collect_bindings(memory, &source.results) {
        Some(v) => v,
        None => {
            return Err(memory_error(ErrorCode::MemoryEquivalenceUnproved, "memory operation result binding is missing"));
        },
    };
    let accesses = derive_accesses(&operands, &results);
    Ok(MemoryOperation {
        id: op.id.clone(),
        impl_operation: op.impl_operation.clone(),
        opcode: op.opcode.clone(),
        operands,
        results,
        accesses,
    })
}

} // verus!
