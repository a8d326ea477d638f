//! Structural verification of an emitted WGSL artifact package against the
//! immutable BackendIR revision it was emitted from: manifest, binding ABI,
//! offline validation, module and entry-point consistency, certificate and
//! exact package hash.

use crate::backend::{
    artifact_query, artifact_query_matches, compiler_build_hash, spec_compiler_build_hash, wgsl_fits, ArtifactCheckReport,
    ArtifactHash, ArtifactStore, BackendRevision,
};
use crate::backend_ir::{
    ArtifactBindingLayout, ArtifactEntryPoint, ArtifactModule, ArtifactPackage, BackendBinding, BackendDispatch,
    BackendExtent, BackendGuardBranch, BackendGuardPredicate, BackendKernel, BackendOutput, BackendParameterBlock,
    BackendParameterEntry, BackendProgram, ARTIFACT_FORMAT_VERSION, ARTIFACT_VALIDATOR_VERSION,
};
use crate::constraint_order::{lemma_shape_irreflexive, lemma_shape_total, shape_less_exec};
use crate::diagnostics::{AgentError, AgentResult, ErrorCode};
use crate::digest::{digest_text, domain_digest};
use crate::impl_ir::{contains_id, ids_contain};
use crate::memory_ir::opt_view;
use crate::types::Shape;
use crate::text::{concat_str, str_eq};
use vstd::prelude::*;
use vstd::utf8::encode_utf8;

verus! {

/// Whether two logical extents are the same.
pub open spec fn extent_same(a: BackendExtent, b: BackendExtent) -> bool {
    match a {
        BackendExtent::Static { value: x } => b matches BackendExtent::Static { value: y } && x == y,
        BackendExtent::Symbol { name: x } => b matches BackendExtent::Symbol { name: y } && x@ == y@,
    }
}

fn extents_equal(a: &BackendExtent, b: &BackendExtent) -> (r: bool)
    ensures
        r == extent_same(*a, *b),
{
    match a {
        BackendExtent::Static { value: x } => match b {
            BackendExtent::Static { value: y } => *x == *y,
            _ => false,
        },
        BackendExtent::Symbol { name: x } => match b {
            BackendExtent::Symbol { name: y } => str_eq(x.as_str(), y.as_str()),
            _ => false,
        },
    }
}

fn shapes_equal(a: &Shape, b: &Shape) -> (r: bool)
    ensures
        r == (a@ == b@),
{
    let lt = shape_less_exec(a, b);
    let gt = shape_less_exec(b, a);
    proof {
        if a@ == b@ {
            lemma_shape_irreflexive(a@);
        } else {
            lemma_shape_total(a@, b@);
        }
    }
    !lt && !gt
}

/// Whether two storage bindings are the same.
pub open spec fn binding_same(a: BackendBinding, b: BackendBinding) -> bool {
    &&& a.group == b.group
    &&& a.binding == b.binding
    &&& a.buffer@ == b.buffer@
    &&& opt_view(a.external_name) == opt_view(b.external_name)
    &&& a.element_type == b.element_type
    &&& a.shape@ == b.shape@
    &&& a.access == b.access
    &&& a.alignment == b.alignment
    &&& a.offset_elements == b.offset_elements
}

fn bindings_equal_one(a: &BackendBinding, b: &BackendBinding) -> (r: bool)
    ensures
        r == binding_same(*a, *b),
{
    let names = match &a.external_name {
        Some(x) => match &b.external_name {
            Some(y) => str_eq(x.as_str(), y.as_str()),
            None => false,
        },
        None => b.external_name.is_none(),
    };
    a.group == b.group && a.binding == b.binding && str_eq(a.buffer.as_str(), b.buffer.as_str()) && names
        && a.element_type == b.element_type && shapes_equal(&a.shape, &b.shape) && a.access == b.access
        && a.alignment == b.alignment && a.offset_elements == b.offset_elements
}

/// Whether two binding sequences are the same, position by position.
pub open spec fn bindings_same(a: Seq<BackendBinding>, b: Seq<BackendBinding>) -> bool {
    a.len() == b.len() && forall|i: int| 0 <= i < a.len() ==> binding_same(#[trigger] a[i], b[i])
}

fn bindings_equal(a: &Vec<BackendBinding>, b: &Vec<BackendBinding>) -> (r: bool)
    ensures
        r == bindings_same(a@, b@),
{
    if a.len() != b.len() {
        return false;
    }
    let mut i: usize = 0;
    while i < a.len()
        invariant
            a@.len() == b@.len(),
            i <= a@.len(),
            forall|j: int| 0 <= j < i ==> binding_same(#[trigger] a@[j], b@[j]),
        decreases a.len() - i,
    {
        if !bindings_equal_one(&a[i], &b[i]) {
            return false;
        }
        i = i + 1;
    }
    true
}

/// Whether two uniform parameter entries are the same.
pub open spec fn entry_same(a: BackendParameterEntry, b: BackendParameterEntry) -> bool {
    a.name@ == b.name@ && a.ty == b.ty && a.offset == b.offset && a.size == b.size
}

/// Whether two uniform parameter blocks are the same.
pub open spec fn block_same(a: BackendParameterBlock, b: BackendParameterBlock) -> bool {
    &&& a.group == b.group
    &&& a.binding == b.binding
    &&& a.entries@.len() == b.entries@.len()
    &&& forall|i: int| 0 <= i < a.entries@.len() ==> entry_same(#[trigger] a.entries@[i], b.entries@[i])
    &&& a.byte_size == b.byte_size
}

fn blocks_equal(a: &BackendParameterBlock, b: &BackendParameterBlock) -> (r: bool)
    ensures
        r == block_same(*a, *b),
{
    if a.group != b.group || a.binding != b.binding || a.byte_size != b.byte_size || a.entries.len() != b.entries.len() {
        return false;
    }
    let mut i: usize = 0;
    while i < a.entries.len()
        invariant
            a.entries@.len() == b.entries@.len(),
            i <= a.entries@.len(),
            forall|j: int| 0 <= j < i ==> entry_same(#[trigger] a.entries@[j], b.entries@[j]),
        decreases a.entries.len() - i,
    {
        let x = &a.entries[i];
        let y = &b.entries[i];
        if !(str_eq(x.name.as_str(), y.name.as_str()) && x.ty == y.ty && x.offset == y.offset && x.size == y.size) {
            return false;
        }
        i = i + 1;
    }
    true
}

/// Whether two output mappings are the same.
pub open spec fn output_same(a: BackendOutput, b: BackendOutput) -> bool {
    a.name@ == b.name@ && a.binding == b.binding && a.buffer@ == b.buffer@
}

/// Whether two output sequences are the same, position by position.
pub open spec fn outputs_same(a: Seq<BackendOutput>, b: Seq<BackendOutput>) -> bool {
    a.len() == b.len() && forall|i: int| 0 <= i < a.len() ==> output_same(#[trigger] a[i], b[i])
}

fn outputs_equal(a: &Vec<BackendOutput>, b: &Vec<BackendOutput>) -> (r: bool)
    ensures
        r == outputs_same(a@, b@),
{
    if a.len() != b.len() {
        return false;
    }
    let mut i: usize = 0;
    while i < a.len()
        invariant
            a@.len() == b@.len(),
            i <= a@.len(),
            forall|j: int| 0 <= j < i ==> output_same(#[trigger] a@[j], b@[j]),
        decreases a.len() - i,
    {
        let x = &a[i];
        let y = &b[i];
        if !(str_eq(x.name.as_str(), y.name.as_str()) && x.binding == y.binding && str_eq(x.buffer.as_str(), y.buffer.as_str())) {
            return false;
        }
        i = i + 1;
    }
    true
}

/// Whether two dispatches are the same.
pub open spec fn dispatch_same(a: BackendDispatch, b: BackendDispatch) -> bool {
    &&& a.order == b.order
    &&& a.kernel@ == b.kernel@
    &&& extent_same(a.workgroups@[0], b.workgroups@[0])
    &&& extent_same(a.workgroups@[1], b.workgroups@[1])
    &&& extent_same(a.workgroups@[2], b.workgroups@[2])
    &&& a.workgroup_size@ == b.workgroup_size@
    &&& a.bounds_checked == b.bounds_checked
}

fn sizes_equal(a: &[u32; 3], b: &[u32; 3]) -> (r: bool)
    ensures
        r == (a@ == b@),
{
    let r = a[0] == b[0] && a[1] == b[1] && a[2] == b[2];
    proof {
        if r {
            assert(a@ =~= b@);
        }
    }
    r
}

/// Whether two dispatch sequences are the same, position by position.
pub open spec fn dispatches_same(a: Seq<BackendDispatch>, b: Seq<BackendDispatch>) -> bool {
    a.len() == b.len() && forall|i: int| 0 <= i < a.len() ==> dispatch_same(#[trigger] a[i], b[i])
}

fn dispatches_equal(a: &Vec<BackendDispatch>, b: &Vec<BackendDispatch>) -> (r: bool)
    ensures
        r == dispatches_same(a@, b@),
{
    if a.len() != b.len() {
        return false;
    }
    let mut i: usize = 0;
    while i < a.len()
        invariant
            a@.len() == b@.len(),
            i <= a@.len(),
            forall|j: int| 0 <= j < i ==> dispatch_same(#[trigger] a@[j], b@[j]),
        decreases a.len() - i,
    {
        let x = &a[i];
        let y = &b[i];
        let same = x.order == y.order && str_eq(x.kernel.as_str(), y.kernel.as_str())
            && extents_equal(&x.workgroups[0], &y.workgroups[0]) && extents_equal(&x.workgroups[1], &y.workgroups[1])
            && extents_equal(&x.workgroups[2], &y.workgroups[2]) && sizes_equal(&x.workgroup_size, &y.workgroup_size)
            && x.bounds_checked == y.bounds_checked;
        if !same {
            return false;
        }
        i = i + 1;
    }
    true
}

fn u64s_equal(a: &Vec<u64>, b: &Vec<u64>) -> (r: bool)
    ensures
        r == (a@ == b@),
{
    if a.len() != b.len() {
        return false;
    }
    let mut i: usize = 0;
    while i < a.len()
        invariant
            a@.len() == b@.len(),
            i <= a@.len(),
            forall|j: int| 0 <= j < i ==> a@[j] == b@[j],
        decreases a.len() - i,
    {
        if a[i] != b[i] {
            return false;
        }
        i = i + 1;
    }
    assert(a@ =~= b@);
    true
}

/// Whether two runtime guard predicates are the same.
pub open spec fn predicate_same(a: BackendGuardPredicate, b: BackendGuardPredicate) -> bool {
    match a {
        BackendGuardPredicate::NoOverlap { first: f1, second: s1, bytes: n1 } => match b {
            BackendGuardPredicate::NoOverlap { first: f2, second: s2, bytes: n2 } => f1@ == f2@ && s1@ == s2@
                && extent_same(n1, n2),
        },
    }
}

/// Whether two optional runtime guards are the same.
pub open spec fn guard_same(a: Option<BackendGuardBranch>, b: Option<BackendGuardBranch>) -> bool {
    match a {
        None => b is None,
        Some(x) => b matches Some(y) && predicate_same(x.predicate, y.predicate)
            && x.true_dispatches@ == y.true_dispatches@ && x.false_dispatches@ == y.false_dispatches@,
    }
}

fn guards_equal(a: &Option<BackendGuardBranch>, b: &Option<BackendGuardBranch>) -> (r: bool)
    ensures
        r == guard_same(*a, *b),
{
    match a {
        None => b.is_none(),
        Some(x) => match b {
            None => false,
            Some(y) => {
                let predicates = match &x.predicate {
                    BackendGuardPredicate::NoOverlap { first: f1, second: s1, bytes: n1 } => match &y.predicate {
                        BackendGuardPredicate::NoOverlap { first: f2, second: s2, bytes: n2 } => str_eq(f1.as_str(), f2.as_str())
                            && str_eq(s1.as_str(), s2.as_str()) && extents_equal(n1, n2),
                    },
                };
                predicates && u64s_equal(&x.true_dispatches, &y.true_dispatches) && u64s_equal(
                    &x.false_dispatches,
                    &y.false_dispatches,
                )
            },
        },
    }
}

/// Whether a binding layout is the runtime ABI of a kernel.
pub open spec fn layout_of(l: ArtifactBindingLayout, k: BackendKernel) -> bool {
    &&& l.kernel@ == k.id@
    &&& bindings_same(l.storage_bindings@, k.bindings@)
    &&& block_same(l.parameter_block, k.parameter_block)
    &&& extent_same(l.logical_extent, k.logical_extent)
    &&& outputs_same(l.outputs@, k.outputs@)
}

/// Whether every kernel named in the program's kernel order exists.
pub open spec fn kernel_order_resolves(p: BackendProgram) -> bool {
    forall|i: int| 0 <= i < p.kernel_order@.len() ==> p.kernels@.contains_key(#[trigger] p.kernel_order@[i]@)
}

/// Whether the layouts are, in kernel order, the runtime ABI of the
/// program's kernels.
pub open spec fn layouts_match(ls: Seq<ArtifactBindingLayout>, p: BackendProgram) -> bool {
    &&& ls.len() == p.kernel_order@.len()
    &&& forall|i: int| 0 <= i < ls.len() ==> layout_of(#[trigger] ls[i], p.kernels@[p.kernel_order@[i]@])
}

fn layouts_equal(ls: &Vec<ArtifactBindingLayout>, p: &BackendProgram) -> (r: bool)
    requires
        kernel_order_resolves(*p),
    ensures
        r == layouts_match(ls@, *p),
{
    if ls.len() != p.kernel_order.len() {
        return false;
    }
    let mut i: usize = 0;
    while i < ls.len()
        invariant
            ls@.len() == p.kernel_order@.len(),
            kernel_order_resolves(*p),
            i <= ls@.len(),
            forall|j: int| 0 <= j < i ==> layout_of(#[trigger] ls@[j], p.kernels@[p.kernel_order@[j]@]),
        decreases ls.len() - i,
    {
        let k = match p.kernels.get(p.kernel_order[i].as_str()) {
            Some(k) => k,
            None => {
                return false;
            },
        };
        let l = &ls[i];
        let same = str_eq(l.kernel.as_str(), k.id.as_str()) && bindings_equal(&l.storage_bindings, &k.bindings)
            && blocks_equal(&l.parameter_block, &k.parameter_block) && extents_equal(&l.logical_extent, &k.logical_extent)
            && outputs_equal(&l.outputs, &k.outputs);
        if !same {
            return false;
        }
        i = i + 1;
    }
    true
}

/// Whether `pat` occurs in `s` as a run of consecutive characters.
pub open spec fn text_contains(s: Seq<char>, pat: Seq<char>) -> bool {
    exists|i: int| 0 <= i && i + pat.len() <= s.len() && #[trigger] s.subrange(i, i + pat.len()) == pat
}

fn contains_text(s: &str, pat: &str) -> (r: bool)
    ensures
        r == text_contains(s@, pat@),
{
    let n = s.unicode_len();
    let m = pat.unicode_len();
    if m > n {
        return false;
    }
    if m == 0 {
        assert(s@.subrange(0, 0 + pat@.len() as int) =~= pat@);
        return true;
    }
    let mut i: usize = 0;
    while i <= n - m
        invariant
            n == s@.len(),
            m == pat@.len(),
            0 < m <= n,
            i <= n - m + 1,
            forall|j: int| 0 <= j < i ==> #[trigger] s@.subrange(j, j + m) != pat@,
        decreases n - m + 1 - i,
    {
        let mut k: usize = 0;
        let mut same = true;
        while k < m && same
            invariant
                n == s@.len(),
                m == pat@.len(),
                i + m <= n,
                k <= m,
                same ==> forall|t: int| 0 <= t < k ==> s@[i + t] == pat@[t],
                !same ==> s@.subrange(i as int, i + m) != pat@,
            decreases m - k + if same { 1int } else { 0int },
        {
            if s.get_char(i + k) != pat.get_char(k) {
                same = false;
                proof {
                    assert(s@.subrange(i as int, i + m)[k as int] != pat@[k as int]);
                }
            } else {
                k = k + 1;
            }
        }
        if same {
            assert(s@.subrange(i as int, i + m) =~= pat@);
            return true;
        }
        i = i + 1;
    }
    false
}

fn has_char(s: &str, c: char) -> (r: bool)
    ensures
        r == s@.contains(c),
{
    let n = s.unicode_len();
    let mut i: usize = 0;
    while i < n
        invariant
            n == s@.len(),
            i <= n,
            forall|j: int| 0 <= j < i ==> s@[j] != c,
        decreases n - i,
    {
        if s.get_char(i) == c {
            return true;
        }
        i = i + 1;
    }
    false
}

/// Index of the module an identity resolves to among the first `n`
/// modules: the last one carrying that identity, or -1 when none does.
pub open spec fn module_index(ms: Seq<ArtifactModule>, id: Seq<char>, n: nat) -> int
    decreases n,
{
    if n == 0 {
        -1
    } else if ms[n - 1].id@ == id {
        n - 1
    } else {
        module_index(ms, id, (n - 1) as nat)
    }
}

fn find_module(ms: &Vec<ArtifactModule>, id: &str) -> (r: Option<usize>)
    ensures
        match r {
            Some(i) => i == module_index(ms@, id@, ms@.len()) && i < ms@.len(),
            None => module_index(ms@, id@, ms@.len()) == -1,
        },
{
    let mut found: Option<usize> = None;
    let mut i: usize = 0;
    while i < ms.len()
        invariant
            i <= ms@.len(),
            match found {
                Some(j) => j == module_index(ms@, id@, i as nat) && j < i,
                None => module_index(ms@, id@, i as nat) == -1,
            },
        decreases ms.len() - i,
    {
        if str_eq(ms[i].id.as_str(), id) {
            found = Some(i);
        }
        i = i + 1;
    }
    found
}

/// The text that a WGSL module holds where it defines function `name`.
pub open spec fn entry_signature(name: Seq<char>) -> Seq<char> {
    "fn "@ + name + "("@
}

/// Whether a module's WGSL text is non-empty and free of carriage returns.
pub open spec fn module_text_ok(m: ArtifactModule) -> bool {
    m.wgsl@.len() > 0 && !m.wgsl@.contains('\r')
}

/// Whether a manifest entry point resolves to a module that declares and
/// defines it and to the kernel it launches, with that kernel's entry name
/// and workgroup size.
pub open spec fn entry_ok(e: ArtifactEntryPoint, ms: Seq<ArtifactModule>, p: BackendProgram) -> bool {
    let mi = module_index(ms, e.module@, ms.len());
    &&& mi >= 0
    &&& ids_contain(ms[mi].entry_points@, e.name@)
    &&& text_contains(ms[mi].wgsl@, entry_signature(e.name@))
    &&& p.kernels@.contains_key(e.kernel@)
    &&& p.kernels@[e.kernel@].entry_point@ == e.name@
    &&& p.kernels@[e.kernel@].workgroup_size@ == e.workgroup_size@
}

/// Whether the manifest lists the package's modules in order, every module
/// text is well formed, and every entry point resolves.
pub open spec fn modules_consistent(p: ArtifactPackage, b: BackendProgram) -> bool {
    &&& p.manifest.modules@.len() == p.modules@.len()
    &&& forall|i: int| 0 <= i < p.modules@.len() ==> (#[trigger] p.manifest.modules@[i])@ == p.modules@[i].id@
    &&& forall|i: int| 0 <= i < p.modules@.len() ==> module_text_ok(#[trigger] p.modules@[i])
    &&& forall|i: int| 0 <= i < p.manifest.entry_points@.len() ==> entry_ok(#[trigger] p.manifest.entry_points@[i], p.modules@, b)
}

fn entry_point_ok(e: &ArtifactEntryPoint, ms: &Vec<ArtifactModule>, p: &BackendProgram) -> (r: bool)
    ensures
        r == entry_ok(*e, ms@, *p),
{
    let module = match find_module(ms, e.module.as_str()) {
        Some(i) => &ms[i],
        None => {
            return false;
        },
    };
    let prefix = concat_str("fn ", e.name.as_str());
    let signature = concat_str(prefix.as_str(), "(");
    if !contains_id(&module.entry_points, e.name.as_str()) || !contains_text(module.wgsl.as_str(), signature.as_str()) {
        return false;
    }
    match p.kernels.get(e.kernel.as_str()) {
        Some(k) => str_eq(k.entry_point.as_str(), e.name.as_str()) && sizes_equal(&k.workgroup_size, &e.workgroup_size),
        None => false,
    }
}

fn modules_check(p: &ArtifactPackage, b: &BackendProgram) -> (r: bool)
    ensures
        r == modules_consistent(*p, *b),
{
    if p.manifest.modules.len() != p.modules.len() {
        return false;
    }
    let mut i: usize = 0;
    while i < p.modules.len()
        invariant
            p.manifest.modules@.len() == p.modules@.len(),
            i <= p.modules@.len(),
            forall|j: int| 0 <= j < i ==> (#[trigger] p.manifest.modules@[j])@ == p.modules@[j].id@,
            forall|j: int| 0 <= j < i ==> module_text_ok(#[trigger] p.modules@[j]),
        decreases p.modules.len() - i,
    {
        let m = &p.modules[i];
        if !str_eq(p.manifest.modules[i].as_str(), m.id.as_str()) || m.wgsl.unicode_len() == 0 || has_char(m.wgsl.as_str(), '\r') {
            return false;
        }
        i = i + 1;
    }
    let mut k: usize = 0;
    while k < p.manifest.entry_points.len()
        invariant
            k <= p.manifest.entry_points@.len(),
            forall|j: int| 0 <= j < k ==> entry_ok(#[trigger] p.manifest.entry_points@[j], p.modules@, *b),
        decreases p.manifest.entry_points.len() - k,
    {
        if !entry_point_ok(&p.manifest.entry_points[k], &p.modules, b) {
            return false;
        }
        k = k + 1;
    }
    true
}

/// Whether the manifest matches the immutable BackendIR revision and the
/// current compiler build.
pub open spec fn manifest_matches(p: ArtifactPackage, b: BackendRevision) -> bool {
    &&& p.manifest.format@ == "agentir.wgsl.package"@
    &&& p.manifest.format_version == ARTIFACT_FORMAT_VERSION
    &&& p.manifest.backend_hash.0@ == b.backend_hash.0@
    &&& dispatches_same(p.manifest.dispatches@, b.program.dispatches@)
    &&& guard_same(p.manifest.guard, b.program.guard)
    &&& outputs_same(p.manifest.outputs@, b.program.outputs@)
    &&& p.manifest.compiler_build_hash.0@ == spec_compiler_build_hash()
}

/// Whether the package's equivalence certificate names this backend, the
/// manifest's compiler build, the package hash and the current validator.
pub open spec fn certificate_matches(p: ArtifactPackage, b: BackendRevision) -> bool {
    &&& p.certificate.relation@ == "artifact_equivalent_to_backend"@
    &&& p.certificate.backend_hash.0@ == b.backend_hash.0@
    &&& p.certificate.compiler_build_hash.0@ == p.manifest.compiler_build_hash.0@
    &&& p.certificate.artifact_hash.0@ == p.artifact_hash.0@
    &&& p.certificate.validator_version == ARTIFACT_VALIDATOR_VERSION
}

/// The exact package hash of canonical package bytes.
pub open spec fn spec_artifact_hash(canonical: Seq<u8>) -> Seq<char> {
    domain_digest(encode_utf8("agentir.artifact.wgsl.package.v1\0"@), canonical)
}

/// Computes the package hash from the package's canonical bytes (manifest,
/// modules, offline validation, status and certificate relation, conditions
/// and validator version).
pub fn artifact_hash(canonical: &[u8]) -> (r: ArtifactHash)
    ensures
        r.0@ == spec_artifact_hash(canonical@),
{
    let domain = "agentir.artifact.wgsl.package.v1\0";
    ArtifactHash(digest_text(domain.as_bytes(), canonical))
}

/// The outcome of verifying a package with canonical bytes `canonical`
/// against a BackendIR revision: the first check that fails, in order.
pub open spec fn artifact_verdict(p: ArtifactPackage, b: BackendRevision, canonical: Seq<u8>) -> Result<(), ErrorCode> {
    if !manifest_matches(p, b) || !layouts_match(p.manifest.binding_layouts@, b.program) {
        Err(ErrorCode::ArtifactManifestInvalid)
    } else if !(p.offline_validation.parsed && p.offline_validation.validated) {
        Err(ErrorCode::WgslValidationFailed)
    } else if !modules_consistent(p, b.program) {
        Err(ErrorCode::ArtifactManifestInvalid)
    } else if !certificate_matches(p, b) {
        Err(ErrorCode::ArtifactEquivalenceUnproved)
    } else if p.artifact_hash.0@ != spec_artifact_hash(canonical) {
        Err(ErrorCode::ArtifactHashMismatch)
    } else {
        Ok(())
    }
}

/// Structurally verifies an artifact package against the BackendIR revision
/// it was emitted from, given the package's canonical bytes.
pub fn verify_artifact(package: &ArtifactPackage, backend: &BackendRevision, canonical: &[u8]) -> (r: AgentResult<()>)
    requires
        kernel_order_resolves(backend.program),
    ensures
        match artifact_verdict(*package, *backend, canonical@) {
            Ok(()) => r is Ok,
            Err(c) => r matches Err(e) && e.code == c,
        },
{
    let m = &package.manifest;
    let build = compiler_build_hash();
    let manifest_ok = str_eq(m.format.as_str(), "agentir.wgsl.package") && m.format_version == ARTIFACT_FORMAT_VERSION
        && str_eq(m.backend_hash.0.as_str(), backend.backend_hash.0.as_str()) && dispatches_equal(
        &m.dispatches,
        &backend.program.dispatches,
    ) && guards_equal(&m.guard, &backend.program.guard) && outputs_equal(&m.outputs, &backend.program.outputs)
        && str_eq(m.compiler_build_hash.0.as_str(), build.0.as_str());
    if !manifest_ok || !layouts_equal(&m.binding_layouts, &backend.program) {
        return Err(AgentError::new(ErrorCode::ArtifactManifestInvalid, "artifact manifest differs from immutable BackendIR or compiler build"));
    }
    if !package.offline_validation.parsed || !package.offline_validation.validated {
        return Err(AgentError::new(ErrorCode::WgslValidationFailed, "artifact package lacks a successful offline WGSL validation report"));
    }
    if !modules_check(package, &backend.program) {
        return Err(AgentError::new(ErrorCode::ArtifactManifestInvalid, "WGSL modules, entry points, or manifest order are inconsistent"));
    }
    let c = &package.certificate;
    let certificate_ok = str_eq(c.relation.as_str(), "artifact_equivalent_to_backend") && str_eq(
        c.backend_hash.0.as_str(),
        backend.backend_hash.0.as_str(),
    ) && str_eq(c.compiler_build_hash.0.as_str(), m.compiler_build_hash.0.as_str()) && str_eq(
        c.artifact_hash.0.as_str(),
        package.artifact_hash.0.as_str(),
    ) && c.validator_version == ARTIFACT_VALIDATOR_VERSION;
    if !certificate_ok {
        return Err(AgentError::new(ErrorCode::ArtifactEquivalenceUnproved, "ArtifactEquivalentToBackend certificate is missing or inconsistent"));
    }
    let actual = artifact_hash(canonical);
    if !str_eq(actual.0.as_str(), package.artifact_hash.0.as_str()) {
        return Err(AgentError::new(ErrorCode::ArtifactHashMismatch, "artifact_hash does not match exact manifest and WGSL bytes"));
    }
    Ok(())
}

impl ArtifactStore {
    /// Fully validates one stored artifact against its immutable BackendIR
    /// revision, given the stored package's canonical bytes.
    pub fn check(&self, artifact: &str, backend: &BackendRevision, canonical: &[u8]) -> (r: AgentResult<ArtifactCheckReport>)
        requires
            kernel_order_resolves(backend.program),
            self.packages@.contains_key(artifact@) ==> wgsl_fits(self.packages@[artifact@]),
        ensures
            !self.packages@.contains_key(artifact@) ==> (r matches Err(e) && e.code == ErrorCode::ArtifactNotFound),
            self.packages@.contains_key(artifact@) ==> match artifact_verdict(self.packages@[artifact@], *backend, canonical@) {
                Ok(()) => r matches Ok(report) && artifact_query_matches(report.query, self.packages@[artifact@])
                    && report.offline_valid && report.equivalent_to_backend,
                Err(c) => r matches Err(e) && e.code == c,
            },
    {
        let package = self.package(artifact)?;
        verify_artifact(package, backend, canonical)?;
        Ok(ArtifactCheckReport { query: artifact_query(package), offline_valid: true, equivalent_to_backend: true })
    }
}

} // verus!
