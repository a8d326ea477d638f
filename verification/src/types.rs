//! Scalar and tensor types, symbolic dimensions, and shape constraints.

use crate::text::{decimal, push_decimal, str_eq};
use vstd::prelude::*;

verus! {

/// Scalar element type.
#[derive(Clone, Copy, Debug, PartialEq, Eq, Structural)]
pub enum ScalarType {
    /// Boolean.
    Bool,
    /// Signed 32-bit integer.
    I32,
    /// IEEE-754 binary32.
    F32,
    /// Index-width integer.
    Index,
}

/// One symbolic or static tensor dimension.
#[derive(Debug)]
pub enum DimExpr {
    /// Fully static extent.
    Static(u64),
    /// Declared symbolic extent.
    Symbol(String),
    /// `coefficient * symbol + constant`.
    Affine {
        /// Multiplier of the symbol.
        coefficient: i64,
        /// Declared symbol.
        symbol: String,
        /// Additive constant.
        constant: i64,
    },
}

/// Ordered logical tensor shape.
#[derive(Debug)]
pub struct Shape(pub Vec<DimExpr>);

/// Value type: a scalar or a tensor of scalars.
#[derive(Debug)]
pub enum Type {
    /// Scalar value.
    Scalar(ScalarType),
    /// Tensor value.
    Tensor {
        /// Element type.
        element: ScalarType,
        /// Logical shape.
        shape: Shape,
    },
}

/// Retained shape constraint.
#[derive(Debug)]
pub enum ShapeConstraint {
    /// Left and right shapes are equal in dimension order.
    Equal {
        /// Left shape.
        left: Shape,
        /// Right shape.
        right: Shape,
    },
    /// The symbol is non-negative.
    NonNegative {
        /// Declared symbol.
        symbol: String,
    },
}

/// Mathematical model of a dimension.
pub enum DimV {
    /// Static extent.
    Static(u64),
    /// Symbol.
    Symbol(Seq<char>),
    /// Affine expression.
    Affine(i64, Seq<char>, i64),
}

/// Mathematical model of a type.
pub enum TypeV {
    /// Scalar.
    Scalar(ScalarType),
    /// Tensor.
    Tensor(ScalarType, Seq<DimV>),
}

/// Mathematical model of a shape constraint.
pub enum ConstraintV {
    /// Shape equality.
    Equal(Seq<DimV>, Seq<DimV>),
    /// Non-negativity.
    NonNegative(Seq<char>),
}

impl View for DimExpr {
    type V = DimV;

    open spec fn view(&self) -> DimV {
        match self {
            DimExpr::Static(v) => DimV::Static(*v),
            DimExpr::Symbol(s) => DimV::Symbol(s@),
            DimExpr::Affine { coefficient, symbol, constant } => DimV::Affine(
                *coefficient,
                symbol@,
                *constant,
            ),
        }
    }
}

impl View for Shape {
    type V = Seq<DimV>;

    open spec fn view(&self) -> Seq<DimV> {
        self.0@.map_values(|d: DimExpr| d@)
    }
}

impl View for Type {
    type V = TypeV;

    open spec fn view(&self) -> TypeV {
        match self {
            Type::Scalar(s) => TypeV::Scalar(*s),
            Type::Tensor { element, shape } => TypeV::Tensor(*element, shape@),
        }
    }
}

impl View for ShapeConstraint {
    type V = ConstraintV;

    open spec fn view(&self) -> ConstraintV {
        match self {
            ShapeConstraint::Equal { left, right } => ConstraintV::Equal(left@, right@),
            ShapeConstraint::NonNegative { symbol } => ConstraintV::NonNegative(symbol@),
        }
    }
}

impl DimExpr {
    /// Copies the dimension.
    pub fn copy(&self) -> (r: Self)
        ensures
            r@ == self@,
    {
        match self {
            DimExpr::Static(v) => DimExpr::Static(*v),
            DimExpr::Symbol(s) => DimExpr::Symbol(s.clone()),
            DimExpr::Affine { coefficient, symbol, constant } => DimExpr::Affine {
                coefficient: *coefficient,
                symbol: symbol.clone(),
                constant: *constant,
            },
        }
    }

    /// Structural equality.
    pub fn same(&self, other: &Self) -> (r: bool)
        ensures
            r == (self@ == other@),
    {
        match (self, other) {
            (DimExpr::Static(a), DimExpr::Static(b)) => *a == *b,
            (DimExpr::Symbol(a), DimExpr::Symbol(b)) => str_eq(a.as_str(), b.as_str()),
            (
                DimExpr::Affine { coefficient: c1, symbol: s1, constant: k1 },
                DimExpr::Affine { coefficient: c2, symbol: s2, constant: k2 },
            ) => *c1 == *c2 && *k1 == *k2 && str_eq(s1.as_str(), s2.as_str()),
            _ => false,
        }
    }
}

impl Shape {
    /// Copies the shape.
    pub fn copy(&self) -> (r: Self)
        ensures
            r@ == self@,
            r.0@.len() == self.0@.len(),
    {
        let mut out: Vec<DimExpr> = Vec::new();
        let mut i: usize = 0;
        while i < self.0.len()
            invariant
                i <= self.0@.len(),
                out@.len() == i,
                forall|j: int| 0 <= j < i ==> (#[trigger] out@[j])@ == self.0@[j]@,
            decreases self.0.len() - i,
        {
            out.push(self.0[i].copy());
            i = i + 1;
        }
        let r = Shape(out);
        assert(r@ =~= self@);
        r
    }

    /// Structural equality.
    pub fn same(&self, other: &Self) -> (r: bool)
        ensures
            r == (self@ == other@),
    {
        if self.0.len() != other.0.len() {
            assert(self@.len() != other@.len());
            return false;
        }
        let mut i: usize = 0;
        while i < self.0.len()
            invariant
                self.0@.len() == other.0@.len(),
                i <= self.0@.len(),
                forall|j: int| 0 <= j < i ==> (#[trigger] self.0@[j])@ == other.0@[j]@,
            decreases self.0.len() - i,
        {
            if !self.0[i].same(&other.0[i]) {
                assert(self@[i as int] != other@[i as int]);
                return false;
            }
            i = i + 1;
        }
        assert(self@ =~= other@);
        true
    }
}

impl Type {
    /// Copies the type.
    pub fn copy(&self) -> (r: Self)
        ensures
            r@ == self@,
    {
        match self {
            Type::Scalar(s) => Type::Scalar(*s),
            Type::Tensor { element, shape } => Type::Tensor { element: *element, shape: shape.copy() },
        }
    }

    /// Structural equality.
    pub fn same(&self, other: &Self) -> (r: bool)
        ensures
            r == (self@ == other@),
    {
        match (self, other) {
            (Type::Scalar(a), Type::Scalar(b)) => *a == *b,
            (Type::Tensor { element: e1, shape: s1 }, Type::Tensor { element: e2, shape: s2 }) => {
                *e1 == *e2 && s1.same(s2)
            },
            _ => false,
        }
    }

    /// The tensor shape, if this is a tensor type.
    pub fn shape(&self) -> (r: Option<&Shape>)
        ensures
            match self@ {
                TypeV::Scalar(_) => r is None,
                TypeV::Tensor(_, s) => r matches Some(x) && x@ == s,
            },
    {
        match self {
            Type::Scalar(_) => None,
            Type::Tensor { shape, .. } => Some(shape),
        }
    }

    /// Whether this is a tensor type.
    pub fn is_tensor(&self) -> (r: bool)
        ensures
            r == (self@ is Tensor),
    {
        match self {
            Type::Scalar(_) => false,
            Type::Tensor { .. } => true,
        }
    }
}

impl ShapeConstraint {
    /// Copies the constraint.
    pub fn copy(&self) -> (r: Self)
        ensures
            r@ == self@,
    {
        match self {
            ShapeConstraint::Equal { left, right } => ShapeConstraint::Equal {
                left: left.copy(),
                right: right.copy(),
            },
            ShapeConstraint::NonNegative { symbol } => ShapeConstraint::NonNegative {
                symbol: symbol.clone(),
            },
        }
    }

    /// Structural equality.
    pub fn same(&self, other: &Self) -> (r: bool)
        ensures
            r == (self@ == other@),
    {
        match (self, other) {
            (
                ShapeConstraint::Equal { left: l1, right: r1 },
                ShapeConstraint::Equal { left: l2, right: r2 },
            ) => l1.same(l2) && r1.same(r2),
            (
                ShapeConstraint::NonNegative { symbol: a },
                ShapeConstraint::NonNegative { symbol: b },
            ) => str_eq(a.as_str(), b.as_str()),
            _ => false,
        }
    }
}

/// Text of a scalar type.
pub open spec fn scalar_text(s: ScalarType) -> Seq<char> {
    match s {
        ScalarType::Bool => "bool"@,
        ScalarType::I32 => "i32"@,
        ScalarType::F32 => "f32"@,
        ScalarType::Index => "index"@,
    }
}

/// Renders a scalar type.
pub fn scalar_type_text(s: ScalarType) -> (r: String)
    ensures
        r@ == scalar_text(s),
{
    match s {
        ScalarType::Bool => String::from_str("bool"),
        ScalarType::I32 => String::from_str("i32"),
        ScalarType::F32 => String::from_str("f32"),
        ScalarType::Index => String::from_str("index"),
    }
}

/// Decimal rendering of a signed integer.
pub open spec fn signed_decimal(x: int) -> Seq<char> {
    if x < 0 {
        "-"@ + decimal((-x) as nat)
    } else {
        decimal(x as nat)
    }
}

/// Signed rendering with an explicit leading sign, as `{:+}` writes it.
pub open spec fn plus_signed_decimal(x: int) -> Seq<char> {
    if x < 0 {
        "-"@ + decimal((-x) as nat)
    } else {
        "+"@ + decimal(x as nat)
    }
}

/// Appends a signed decimal, optionally with an explicit plus sign.
pub fn push_signed(out: &mut String, x: i128, plus: bool)
    requires
        x > i128::MIN,
        -x <= u64::MAX,
        x <= u64::MAX,
    ensures
        plus ==> final(out)@ == old(out)@ + plus_signed_decimal(x as int),
        !plus ==> final(out)@ == old(out)@ + signed_decimal(x as int),
{
    proof {
        reveal_strlit("-");
        reveal_strlit("+");
    }
    if x < 0 {
        out.append("-");
        push_decimal(out, (-x) as u64);
        assert(final(out)@ =~= old(out)@ + ("-"@ + decimal((-x) as nat)));
    } else {
        if plus {
            out.append("+");
            push_decimal(out, x as u64);
            assert(final(out)@ =~= old(out)@ + ("+"@ + decimal(x as nat)));
        } else {
            push_decimal(out, x as u64);
        }
    }
}

/// Copies a string slice into a new string.
pub fn own(s: &str) -> (r: String)
    ensures
        r@ == s@,
{
    String::from_str(s)
}

} // verus!
