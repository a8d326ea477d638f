//! Canonical SpecIR opcodes and exactly encoded scalar constants.

use crate::holes::Hole;
use crate::idmap::IdMap;
use crate::ids::{ActionId, DimensionId, HoleId, OperationId, ValueId};
use crate::obligations::ProofObligation;
use crate::types::{ScalarType, ShapeConstraint, Type};
use vstd::prelude::*;

verus! {

/// An operation recognized by the compiler core.
#[derive(Clone, Copy, Debug, PartialEq, Eq, Structural)]
pub enum Opcode {
    /// External immutable input.
    Parameter,
    /// Typed literal.
    Constant,
    /// Numeric addition.
    Add,
    /// Numeric subtraction.
    Sub,
    /// Numeric multiplication.
    Mul,
    /// Numeric division.
    Div,
    /// Fused multiply-add with contract-controlled semantics.
    Fma,
    /// Typed comparison.
    Compare,
    /// Conditional value selection.
    Select,
    /// Explicit scalar or element cast.
    Cast,
    /// Unary elementwise region application.
    MapOp,
    /// N-ary elementwise region application.
    ZipMap,
    /// Deterministic reduction.
    Reduce,
}

/// The wire spelling of an opcode.
pub open spec fn opcode_text(op: Opcode) -> Seq<char> {
    match op {
        Opcode::Parameter => "parameter"@,
        Opcode::Constant => "constant"@,
        Opcode::Add => "add"@,
        Opcode::Sub => "sub"@,
        Opcode::Mul => "mul"@,
        Opcode::Div => "div"@,
        Opcode::Fma => "fma"@,
        Opcode::Compare => "compare"@,
        Opcode::Select => "select"@,
        Opcode::Cast => "cast"@,
        Opcode::MapOp => "map"@,
        Opcode::ZipMap => "zip_map"@,
        Opcode::Reduce => "reduce"@,
    }
}

impl Opcode {
    /// Returns the stable wire spelling of the opcode.
    pub fn text(&self) -> (r: String)
        ensures
            r@ == opcode_text(*self),
    {
        match self {
            Opcode::Parameter => String::from_str("parameter"),
            Opcode::Constant => String::from_str("constant"),
            Opcode::Add => String::from_str("add"),
            Opcode::Sub => String::from_str("sub"),
            Opcode::Mul => String::from_str("mul"),
            Opcode::Div => String::from_str("div"),
            Opcode::Fma => String::from_str("fma"),
            Opcode::Compare => String::from_str("compare"),
            Opcode::Select => String::from_str("select"),
            Opcode::Cast => String::from_str("cast"),
            Opcode::MapOp => String::from_str("map"),
            Opcode::ZipMap => String::from_str("zip_map"),
            Opcode::Reduce => String::from_str("reduce"),
        }
    }
}

/// Exactly encoded scalar constant.
#[derive(Debug)]
pub enum ConstantValue {
    /// Boolean literal.
    Bool {
        /// Literal value.
        value: bool,
    },
    /// Signed 32-bit literal.
    I32 {
        /// Literal value.
        value: i32,
    },
    /// Binary32 literal represented by its IEEE-754 bits.
    F32 {
        /// Lowercase hexadecimal bits, including the `0x` prefix.
        bits: String,
    },
}

/// The scalar type of a literal.
pub open spec fn constant_scalar_type(c: ConstantValue) -> ScalarType {
    match c {
        ConstantValue::Bool { .. } => ScalarType::Bool,
        ConstantValue::I32 { .. } => ScalarType::I32,
        ConstantValue::F32 { .. } => ScalarType::F32,
    }
}

impl ConstantValue {
    /// Returns the literal scalar type.
    pub fn scalar_type(&self) -> (r: ScalarType)
        ensures
            r == constant_scalar_type(*self),
    {
        match self {
            ConstantValue::Bool { .. } => ScalarType::Bool,
            ConstantValue::I32 { .. } => ScalarType::I32,
            ConstantValue::F32 { .. } => ScalarType::F32,
        }
    }
}

/// A declared symbolic dimension.
#[derive(Debug)]
pub struct Dimension {
    /// Persistent dimension ID.
    pub id: DimensionId,
    /// Unique human-facing symbol.
    pub name: String,
    /// Whether the extent is constrained to be non-negative.
    pub non_negative: bool,
    /// Action that created the dimension.
    pub provenance: ActionId,
}

/// Source of a logical SSA value.
#[derive(Debug)]
pub enum ValueOrigin {
    /// Result of an operation.
    Operation(OperationId),
    /// Placeholder value owned by a typed hole.
    Hole(HoleId),
}

/// One typed SSA value in the graph.
#[derive(Debug)]
pub struct ValueDef {
    /// Persistent value ID.
    pub id: ValueId,
    /// Compiler-inferred or explicitly required type.
    pub ty: Type,
    /// Operation or hole that defines the value.
    pub origin: ValueOrigin,
    /// Optional stable user-facing name.
    pub name: Option<String>,
}

/// Reference used by an operation inside a pure region.
#[derive(Debug)]
pub enum RegionValue {
    /// Region block argument by name.
    Argument(String),
    /// Result of an earlier operation in this region.
    Local(String),
    /// Explicitly captured outer SSA value.
    Capture(ValueId),
}

/// One typed region block argument.
#[derive(Debug)]
pub struct BlockArgument {
    /// Local argument name.
    pub name: String,
    /// Argument type.
    pub ty: Type,
}

/// Pure SSA operation nested in a region.
#[derive(Debug)]
pub struct RegionOperation {
    /// Local result binding.
    pub result: String,
    /// Opcode.
    pub opcode: Opcode,
    /// Region-local operands.
    pub operands: Vec<RegionValue>,
    /// Deterministically ordered attributes.
    pub attributes: IdMap<crate::json::JsonLit>,
    /// Compiler-inferred result type.
    pub result_type: Type,
}

/// A closed, pure region used by a higher-order operation.
#[derive(Debug)]
pub struct Region {
    /// Ordered block arguments.
    pub arguments: Vec<BlockArgument>,
    /// Explicit outer values visible to the body.
    pub captures: Vec<ValueId>,
    /// Region-local SSA operations.
    pub operations: Vec<RegionOperation>,
    /// Value yielded by the region.
    pub yield_value: RegionValue,
    /// Verified yielded type.
    pub yield_type: Type,
}

/// One top-level SpecIR operation.
#[derive(Debug)]
pub struct Operation {
    /// Persistent operation ID.
    pub id: OperationId,
    /// Canonical opcode.
    pub opcode: Opcode,
    /// Persistent operand value IDs.
    pub operands: Vec<ValueId>,
    /// Result value IDs. Stage 1 creates one, while the model permits more later.
    pub results: Vec<ValueId>,
    /// Deterministically ordered attributes.
    pub attributes: IdMap<crate::json::JsonLit>,
    /// Optional pure region.
    pub region: Option<Region>,
    /// Action that created this operation.
    pub provenance: ActionId,
    /// Inferred result types in result order.
    pub result_types: Vec<Type>,
}

/// Canonical functional program stored by a revision.
#[derive(Debug)]
pub struct Program {
    /// Declared symbolic dimensions by persistent ID.
    pub dimensions: IdMap<Dimension>,
    /// Name-to-dimension lookup included in canonical state.
    pub dimension_names: IdMap<DimensionId>,
    /// Operations by persistent ID.
    pub operations: IdMap<Operation>,
    /// Stable topological insertion order for operations.
    pub operation_order: Vec<OperationId>,
    /// Values by persistent ID.
    pub values: IdMap<ValueDef>,
    /// Parameter name-to-value mapping.
    pub parameters: IdMap<ValueId>,
    /// Constant values indexed by their result IDs.
    pub constants: IdMap<ConstantValue>,
    /// Named program outputs.
    pub outputs: IdMap<ValueId>,
    /// Typed holes by persistent ID.
    pub holes: IdMap<Hole>,
    /// Shape constraints retained for future solvers.
    pub constraints: Vec<ShapeConstraint>,
    /// Proof obligations attached to this revision.
    pub obligations: IdMap<ProofObligation>,
    /// Explicit numeric semantics, carried in its JSON form.
    pub numeric_contract: serde_json::Value,
    /// Whether the specification has been frozen.
    pub frozen: bool,
}


} // verus!
