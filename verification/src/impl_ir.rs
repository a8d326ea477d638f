//! The separate typed implementation graph (ImplIR).

use crate::idmap::IdMap;
use crate::ids::{ImplOperationId, ImplValueId, OperationId, ValueId};
use crate::ir::{ConstantValue, Opcode};
use crate::types::{ShapeConstraint, Type};
use vstd::prelude::*;

verus! {

/// Current history-independent ImplIR canonical codec version.
pub const IMPL_CANONICAL_VERSION: u32 = 1;

/// Current exact ImplIR evaluator/verifier semantics version.
pub const IMPL_SEMANTICS_VERSION: u32 = 1;

/// SHA-256 identity of an implementation's reachable typed semantics.
#[derive(Debug)]
pub struct ImplHash(pub String);

impl ImplHash {
    /// Creates a hash from a lowercase hexadecimal digest.
    pub fn new(value: String) -> (r: Self)
        ensures
            r.0@ == value@,
    {
        ImplHash(value)
    }

    /// Returns the lowercase hexadecimal digest.
    pub fn as_str(&self) -> (r: &str)
        ensures
            r@ == self.0@,
    {
        self.0.as_str()
    }
}

/// Compiler-owned provenance from ImplIR back to SpecIR or a trusted rewrite.
#[derive(Debug)]
pub struct ImplSourceLink {
    /// Source SpecIR operation, when this node descends from one operation.
    pub spec_operation: Option<OperationId>,
    /// Source SpecIR result value, when this node descends from one value.
    pub spec_value: Option<ValueId>,
    /// Trusted rule that most recently rewrote this node.
    pub rewrite_rule: Option<String>,
}

/// Source of one ImplIR SSA value.
#[derive(Debug)]
pub enum ImplValueOrigin {
    /// Result of an ImplIR operation.
    Operation(ImplOperationId),
}

/// One typed SSA value in the separate implementation graph.
#[derive(Debug)]
pub struct ImplValue {
    /// Compiler-assigned persistent implementation value ID.
    pub id: ImplValueId,
    /// Compiler-inferred type.
    pub ty: Type,
    /// Defining implementation operation.
    pub origin: ImplValueOrigin,
    /// Optional external-facing name.
    pub name: Option<String>,
    /// Source or rewrite provenance.
    pub source_link: ImplSourceLink,
}

/// Reference used inside a pure ImplIR region.
#[derive(Debug)]
pub enum ImplRegionValue {
    /// Ordered block argument.
    Argument(String),
    /// Earlier local SSA result.
    Local(String),
    /// Explicit outer implementation value.
    Capture(ImplValueId),
}

/// One typed block argument in an implementation region.
#[derive(Debug)]
pub struct ImplBlockArgument {
    /// Local argument name.
    pub name: String,
    /// Argument type.
    pub ty: Type,
}

/// One pure local operation in an implementation region.
#[derive(Debug)]
pub struct ImplRegionOperation {
    /// Local SSA result name.
    pub result: String,
    /// Exact opcode.
    pub opcode: Opcode,
    /// Ordered operands.
    pub operands: Vec<ImplRegionValue>,
    /// Stable semantic attributes.
    pub attributes: IdMap<crate::json::JsonLit>,
    /// Inferred local result type.
    pub result_type: Type,
}

/// Closed pure region owned by one implementation operation.
#[derive(Debug)]
pub struct ImplRegion {
    /// Ordered block arguments.
    pub arguments: Vec<ImplBlockArgument>,
    /// Explicit outer captures.
    pub captures: Vec<ImplValueId>,
    /// Ordered local SSA operations.
    pub operations: Vec<ImplRegionOperation>,
    /// Yielded local/argument/capture value.
    pub yield_value: ImplRegionValue,
    /// Verified yielded type.
    pub yield_type: Type,
}

/// One operation in the separate implementation graph.
#[derive(Debug)]
pub struct ImplOperation {
    /// Compiler-assigned persistent operation ID.
    pub id: ImplOperationId,
    /// Exact opcode.
    pub opcode: Opcode,
    /// Ordered operand values.
    pub operands: Vec<ImplValueId>,
    /// Ordered result values.
    pub results: Vec<ImplValueId>,
    /// Stable semantic attributes.
    pub attributes: IdMap<crate::json::JsonLit>,
    /// Optional closed pure region.
    pub region: Option<ImplRegion>,
    /// Compiler-inferred result types.
    pub result_types: Vec<Type>,
    /// Source or trusted rewrite provenance.
    pub source_link: ImplSourceLink,
}

/// One named external implementation output.
#[derive(Debug)]
pub struct ImplOutput {
    /// External output name.
    pub name: String,
    /// Implementation value returned for the name.
    pub value: ImplValueId,
    /// Verified output type.
    pub ty: Type,
}

/// Functional, transport-independent implementation graph.
#[derive(Debug)]
pub struct ImplProgram {
    /// Logical dimension names and their non-negative declaration bit.
    pub dimensions: IdMap<bool>,
    /// Top-level operations by persistent implementation ID.
    pub operations: IdMap<ImplOperation>,
    /// Explicit dependency-before-use operation order.
    pub operation_order: Vec<ImplOperationId>,
    /// SSA values by persistent implementation ID.
    pub values: IdMap<ImplValue>,
    /// External parameter name-to-value mapping.
    pub parameters: IdMap<ImplValueId>,
    /// Exact scalar constants by result value.
    pub constants: IdMap<ConstantValue>,
    /// External outputs by name.
    pub outputs: IdMap<ImplOutput>,
    /// Accepted logical shape constraints copied from frozen SpecIR.
    pub constraints: Vec<ShapeConstraint>,
    /// Explicit numeric semantics copied from frozen SpecIR, in its JSON form.
    pub numeric_contract: serde_json::Value,
}

/// Whether a string sequence holds `v` (compared by content).
pub open spec fn ids_contain(ids: Seq<String>, v: Seq<char>) -> bool {
    exists|i: int| 0 <= i < ids.len() && (#[trigger] ids[i])@ == v
}

/// Whether operation `op` reads `v` as an operand or an explicit region capture.
pub open spec fn op_reads(op: ImplOperation, v: Seq<char>) -> bool {
    ids_contain(op.operands@, v) || (op.region matches Some(r) && ids_contain(r.captures@, v))
}

/// The defining operation of a value.
pub open spec fn origin_op(v: ImplValue) -> Seq<char> {
    match v.origin {
        ImplValueOrigin::Operation(op) => op@,
    }
}

/// Whether some output of the program returns `v`.
pub open spec fn is_output_value(p: ImplProgram, v: Seq<char>) -> bool {
    exists|i: int| 0 <= i < p.outputs.kv().len() && (#[trigger] p.outputs.kv()[i]).1.value@ == v
}

/// Finds `v` in a string vector by content.
pub fn contains_id(ids: &Vec<String>, v: &str) -> (r: bool)
    ensures
        r == ids_contain(ids@, v@),
{
    let mut i: usize = 0;
    while i < ids.len()
        invariant
            i <= ids@.len(),
            forall|j: int| 0 <= j < i ==> (#[trigger] ids@[j])@ != v@,
        decreases ids.len() - i,
    {
        if crate::text::str_eq(ids[i].as_str(), v) {
            return true;
        }
        i = i + 1;
    }
    false
}

/// Whether an operation reads a value as operand or capture.
pub fn operation_reads(op: &ImplOperation, v: &str) -> (r: bool)
    ensures
        r == op_reads(*op, v@),
{
    if contains_id(&op.operands, v) {
        return true;
    }
    match &op.region {
        Some(region) => contains_id(&region.captures, v),
        None => false,
    }
}

/// Whether some output returns `v`.
pub fn output_returns(p: &ImplProgram, v: &str) -> (r: bool)
    ensures
        r == is_output_value(*p, v@),
{
    let n = p.outputs.len();
    let mut i: usize = 0;
    while i < n
        invariant
            n == p.outputs.kv().len(),
            i <= n,
            forall|j: int| 0 <= j < i ==> (#[trigger] p.outputs.kv()[j]).1.value@ != v@,
        decreases n - i,
    {
        let (_, out) = p.outputs.entry_at(i);
        if crate::text::str_eq(out.value.as_str(), v) {
            return true;
        }
        i = i + 1;
    }
    false
}

} // verus!
