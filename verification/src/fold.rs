//! Exact folding of defined scalar constant operations.
//!
//! Boolean and `i32` folds are computed here exactly, with every overflow,
//! division by zero and unsupported predicate or cast reported. Binary32
//! values travel as their IEEE-754 bits; a fold whose result needs binary32
//! arithmetic is returned as a [`FloatFold`] request for the caller to
//! evaluate, and [`float_constant`] turns the evaluated bits into a constant.

use crate::diagnostics::{AgentError, AgentResult, ErrorCode};
use crate::idmap::IdMap;
use crate::json::{lit_binary32, lit_bool, lit_int, lit_text, JsonLit};
use crate::impl_ir::ImplProgram;
use crate::ir::{ConstantValue, Opcode};
use crate::text::{hex, hex_string, str_eq};
use crate::types::{ScalarType, Type};
use vstd::prelude::*;

verus! {

/// A constant operand or result of a fold; binary32 values are held as bits.
#[derive(Clone, Copy, Debug, PartialEq, Eq, Structural)]
pub enum FoldValue {
    /// Boolean constant.
    Bool(bool),
    /// Signed 32-bit constant (also used for `index`).
    I32(i32),
    /// Finite binary32 constant, by its IEEE-754 bits.
    F32(u32),
}

/// A comparison predicate of the `compare` opcode.
#[derive(Clone, Copy, Debug, PartialEq, Eq, Structural)]
pub enum ComparePredicate {
    /// Equal.
    Eq,
    /// Not equal.
    Ne,
    /// Less than.
    Lt,
    /// Less than or equal.
    Le,
    /// Greater than.
    Gt,
    /// Greater than or equal.
    Ge,
}

/// A fold whose value is defined by binary32 arithmetic on finite operands.
#[derive(Clone, Copy, Debug, PartialEq, Eq, Structural)]
pub enum FloatFold {
    /// `a + b`.
    Add(u32, u32),
    /// `a - b`.
    Sub(u32, u32),
    /// `a * b`.
    Mul(u32, u32),
    /// `a / b` with a non-zero divisor.
    Div(u32, u32),
    /// Fused `a * b + c`.
    Fma(u32, u32, u32),
    /// Comparison of two finite values.
    Compare(ComparePredicate, u32, u32),
    /// Conversion of an `i32` to binary32.
    FromI32(i32),
    /// Conversion of a finite binary32 to `i32`, defined only within range.
    ToI32(u32),
}

/// The outcome of folding constant operands.
#[derive(Clone, Copy, Debug, PartialEq, Eq, Structural)]
pub enum FoldOutcome {
    /// The folded value.
    Value(FoldValue),
    /// Binary32 arithmetic that defines the folded value.
    Float(FloatFold),
}

/// The result of folding one operation.
#[derive(Debug)]
pub enum FoldStep {
    /// The exact folded constant.
    Constant(ConstantValue),
    /// Binary32 arithmetic that defines the folded constant.
    Float(FloatFold),
}

// ---------------------------------------------------------------------------
// Binary32 bit patterns.

/// Whether the bits encode a finite binary32 value (the exponent is not all ones).
pub open spec fn f32_finite(bits: u32) -> bool {
    bits & 0x7f80_0000u32 != 0x7f80_0000u32
}

/// Whether the bits encode positive or negative zero.
pub open spec fn f32_zero(bits: u32) -> bool {
    bits & 0x7fff_ffffu32 == 0
}

/// The four big-endian bytes of a word.
pub open spec fn word_bytes(w: u32) -> Seq<u8> {
    seq![(w >> 24u32) as u8, ((w >> 16u32) & 0xffu32) as u8, ((w >> 8u32) & 0xffu32) as u8, (w & 0xffu32) as u8]
}

/// The canonical text of binary32 bits: `0x` and eight lowercase hexadecimal digits.
pub open spec fn f32_text(bits: u32) -> Seq<char> {
    "0x"@ + hex(word_bytes(bits))
}

/// Renders binary32 bits as `0x` followed by eight lowercase hexadecimal digits.
pub fn f32_bits_text(bits: u32) -> (r: String)
    ensures
        r@ == f32_text(bits),
{
    let bytes: [u8; 4] = [(bits >> 24u32) as u8, ((bits >> 16u32) & 0xffu32) as u8, ((bits >> 8u32) & 0xffu32) as u8, (bits & 0xffu32) as u8];
    let digits = hex_string(bytes.as_slice());
    proof {
        assert(bytes@ =~= word_bytes(bits));
    }
    let mut s = String::from_str("0x");
    s.append(digits.as_str());
    proof {
        reveal_strlit("0x");
    }
    s
}

/// Strips every leading `0x`.
pub open spec fn strip_hex_prefixes(s: Seq<char>) -> Seq<char>
    decreases s.len(),
{
    if s.len() >= 2 && s[0] == '0' && s[1] == 'x' {
        strip_hex_prefixes(s.skip(2))
    } else {
        s
    }
}

/// The value of one hexadecimal digit of either case.
pub open spec fn hex_digit_value(c: char) -> Option<nat> {
    if '0' <= c && c <= '9' {
        Some((c as nat - '0' as nat) as nat)
    } else if 'a' <= c && c <= 'f' {
        Some((c as nat - 'a' as nat + 10) as nat)
    } else if 'A' <= c && c <= 'F' {
        Some((c as nat - 'A' as nat + 10) as nat)
    } else {
        None
    }
}

/// The value of a string of hexadecimal digits, if every character is one.
pub open spec fn hex_number(s: Seq<char>) -> Option<nat>
    decreases s.len(),
{
    if s.len() == 0 {
        Some(0)
    } else {
        match (hex_number(s.drop_last()), hex_digit_value(s.last())) {
            (Some(a), Some(d)) => Some(a * 16 + d),
            _ => None,
        }
    }
}

/// `u32::from_str_radix(s, 16)`: an optional `+`, then at least one
/// hexadecimal digit, with a value that fits in 32 bits.
pub open spec fn radix16_u32(s: Seq<char>) -> Option<u32> {
    let digits = if s.len() > 0 && s[0] == '+' { s.skip(1) } else { s };
    if digits.len() == 0 {
        None
    } else {
        match hex_number(digits) {
            Some(v) => if v <= u32::MAX { Some(v as u32) } else { None },
            None => None,
        }
    }
}

/// The binary32 bits written in a constant's text, read as the compiler
/// reads them: leading `0x` prefixes stripped, then a base-16 `u32`.
pub open spec fn f32_bits_of(text: Seq<char>) -> Option<u32> {
    radix16_u32(strip_hex_prefixes(text))
}

proof fn lemma_hex_number_prefix(s: Seq<char>, k: int)
    requires
        0 <= k <= s.len(),
        hex_number(s) is Some,
    ensures
        hex_number(s.take(k)) is Some,
        hex_number(s.take(k))->0 <= hex_number(s)->0,
    decreases s.len(),
{
    if k == s.len() {
        assert(s.take(k) =~= s);
    } else {
        lemma_hex_number_prefix(s.drop_last(), k);
        assert(s.drop_last().take(k) =~= s.take(k));
    }
}

fn hex_digit(c: char) -> (r: Option<u64>)
    ensures
        match hex_digit_value(c) {
            Some(d) => r == Some(d as u64),
            None => r is None,
        },
{
    if '0' <= c && c <= '9' {
        Some((c as u32 - '0' as u32) as u64)
    } else if 'a' <= c && c <= 'f' {
        Some((c as u32 - 'a' as u32 + 10) as u64)
    } else if 'A' <= c && c <= 'F' {
        Some((c as u32 - 'A' as u32 + 10) as u64)
    } else {
        None
    }
}

/// Reads the binary32 bits of a constant's text.
pub fn parse_f32_bits(text: &str) -> (r: Option<u32>)
    ensures
        r == f32_bits_of(text@),
{
    let n = text.unicode_len();
    let mut i: usize = 0;
    assert(text@.skip(0) =~= text@);
    while n - i > 1 && text.get_char(i) == '0' && text.get_char(i + 1) == 'x'
        invariant
            n == text@.len(),
            i <= n,
            strip_hex_prefixes(text@.skip(i as int)) == strip_hex_prefixes(text@),
        decreases n - i,
    {
        proof {
            assert(text@.skip(i as int).skip(2) =~= text@.skip(i + 2));
        }
        i = i + 2;
    }
    let ghost rest = text@.skip(i as int);
    proof {
        if rest.len() >= 2 {
            assert(rest[0] == text@[i as int] && rest[1] == text@[i + 1]);
        }
        assert(strip_hex_prefixes(rest) == rest);
    }
    let mut start = i;
    if i < n && text.get_char(i) == '+' {
        start = i + 1;
    }
    let ghost digits = text@.skip(start as int);
    proof {
        if rest.len() > 0 && rest[0] == '+' {
            assert(rest.skip(1) =~= digits);
        } else {
            assert(rest =~= digits);
        }
    }
    if start >= n {
        return None;
    }
    let mut acc: u64 = 0;
    let mut j: usize = start;
    assert(digits.take(0) =~= Seq::<char>::empty());
    while j < n
        invariant
            n == text@.len(),
            start <= j <= n,
            digits == text@.skip(start as int),
            hex_number(digits.take(j - start)) == Some(acc as nat),
            acc <= u32::MAX,
            digits.len() > 0,
            f32_bits_of(text@) == (if hex_number(digits) is Some && hex_number(digits)->0 <= u32::MAX {
                Some(hex_number(digits)->0 as u32)
            } else {
                None::<u32>
            }),
        decreases n - j,
    {
        let c = text.get_char(j);
        let ghost t = digits.take(j - start + 1);
        proof {
            assert(t.drop_last() =~= digits.take(j - start));
            assert(t.last() == c);
        }
        match hex_digit(c) {
            None => {
                proof {
                    if hex_number(digits) is Some {
                        lemma_hex_number_prefix(digits, j - start + 1);
                    }
                }
                return None;
            },
            Some(d) => {
                acc = acc * 16 + d;
                if acc > 0xffff_ffffu64 {
                    proof {
                        if hex_number(digits) is Some {
                            lemma_hex_number_prefix(digits, j - start + 1);
                        }
                    }
                    return None;
                }
            },
        }
        j = j + 1;
    }
    proof {
        assert(digits.take(n - start) =~= digits);
    }
    Some(acc as u32)
}

// ---------------------------------------------------------------------------
// Folding constant operands.

/// The predicate named by an attribute text.
pub open spec fn predicate_of(p: Seq<char>) -> Option<ComparePredicate> {
    if p == "eq"@ {
        Some(ComparePredicate::Eq)
    } else if p == "ne"@ {
        Some(ComparePredicate::Ne)
    } else if p == "lt"@ {
        Some(ComparePredicate::Lt)
    } else if p == "le"@ {
        Some(ComparePredicate::Le)
    } else if p == "gt"@ {
        Some(ComparePredicate::Gt)
    } else if p == "ge"@ {
        Some(ComparePredicate::Ge)
    } else {
        None
    }
}

/// The truth of a predicate on two integers.
pub open spec fn compare_ints(p: ComparePredicate, a: int, b: int) -> bool {
    match p {
        ComparePredicate::Eq => a == b,
        ComparePredicate::Ne => a != b,
        ComparePredicate::Lt => a < b,
        ComparePredicate::Le => a <= b,
        ComparePredicate::Gt => a > b,
        ComparePredicate::Ge => a >= b,
    }
}

/// Whether a cast target names an integer type.
pub open spec fn is_int_target(t: Option<Seq<char>>) -> bool {
    t == Some("i32"@) || t == Some("index"@)
}

/// The view of an optional string slice.
pub open spec fn opt_str_view(t: Option<&str>) -> Option<Seq<char>> {
    match t {
        Some(s) => Some(s@),
        None => None,
    }
}

/// Whether an opcode is one of the foldable scalar operations.
pub open spec fn foldable_opcode(op: Opcode) -> bool {
    op == Opcode::Add || op == Opcode::Sub || op == Opcode::Mul || op == Opcode::Div || op == Opcode::Fma
        || op == Opcode::Compare || op == Opcode::Cast || op == Opcode::Select
}

/// The fold of an operation on constant operands, given the `predicate`
/// attribute text (`eq` when absent) and the `target_type` attribute text.
pub open spec fn fold_spec(op: Opcode, v: Seq<FoldValue>, pred: Seq<char>, target: Option<Seq<char>>) -> Result<
    FoldOutcome,
    ErrorCode,
> {
    let not_applicable = Err(ErrorCode::RewriteNotApplicable);
    let undefined = Err(ErrorCode::RewritePreconditionFailed);
    if v.len() == 2 && (op == Opcode::Add || op == Opcode::Sub || op == Opcode::Mul || op == Opcode::Div) {
        match (v[0], v[1]) {
            (FoldValue::I32(a), FoldValue::I32(b)) => {
                let r = if op == Opcode::Add {
                    a.checked_add(b)
                } else if op == Opcode::Sub {
                    a.checked_sub(b)
                } else if op == Opcode::Mul {
                    a.checked_mul(b)
                } else {
                    a.checked_div(b)
                };
                match r {
                    Some(x) => Ok(FoldOutcome::Value(FoldValue::I32(x))),
                    None => undefined,
                }
            },
            (FoldValue::F32(a), FoldValue::F32(b)) => if op == Opcode::Div && f32_zero(b) {
                undefined
            } else if op == Opcode::Add {
                Ok(FoldOutcome::Float(FloatFold::Add(a, b)))
            } else if op == Opcode::Sub {
                Ok(FoldOutcome::Float(FloatFold::Sub(a, b)))
            } else if op == Opcode::Mul {
                Ok(FoldOutcome::Float(FloatFold::Mul(a, b)))
            } else {
                Ok(FoldOutcome::Float(FloatFold::Div(a, b)))
            },
            _ => not_applicable,
        }
    } else if v.len() == 3 && op == Opcode::Fma {
        match (v[0], v[1], v[2]) {
            (FoldValue::I32(a), FoldValue::I32(b), FoldValue::I32(c)) => match a.checked_mul(b) {
                Some(m) => match m.checked_add(c) {
                    Some(x) => Ok(FoldOutcome::Value(FoldValue::I32(x))),
                    None => undefined,
                },
                None => undefined,
            },
            (FoldValue::F32(a), FoldValue::F32(b), FoldValue::F32(c)) => Ok(FoldOutcome::Float(FloatFold::Fma(a, b, c))),
            _ => not_applicable,
        }
    } else if v.len() == 2 && op == Opcode::Compare {
        match (v[0], v[1]) {
            (FoldValue::Bool(a), FoldValue::Bool(b)) => if pred == "eq"@ {
                Ok(FoldOutcome::Value(FoldValue::Bool(a == b)))
            } else if pred == "ne"@ {
                Ok(FoldOutcome::Value(FoldValue::Bool(a != b)))
            } else {
                undefined
            },
            (FoldValue::I32(a), FoldValue::I32(b)) => match predicate_of(pred) {
                Some(p) => Ok(FoldOutcome::Value(FoldValue::Bool(compare_ints(p, a as int, b as int)))),
                None => undefined,
            },
            (FoldValue::F32(a), FoldValue::F32(b)) => match predicate_of(pred) {
                Some(p) => Ok(FoldOutcome::Float(FloatFold::Compare(p, a, b))),
                None => undefined,
            },
            _ => not_applicable,
        }
    } else if v.len() == 3 && op == Opcode::Select {
        match v[0] {
            FoldValue::Bool(c) => Ok(FoldOutcome::Value(if c { v[1] } else { v[2] })),
            _ => not_applicable,
        }
    } else if v.len() == 1 && op == Opcode::Cast {
        match v[0] {
            FoldValue::I32(x) => if is_int_target(target) {
                Ok(FoldOutcome::Value(FoldValue::I32(x)))
            } else if target == Some("f32"@) {
                Ok(FoldOutcome::Float(FloatFold::FromI32(x)))
            } else {
                undefined
            },
            FoldValue::F32(b) => if target == Some("f32"@) {
                Ok(FoldOutcome::Value(FoldValue::F32(b)))
            } else if is_int_target(target) {
                Ok(FoldOutcome::Float(FloatFold::ToI32(b)))
            } else {
                undefined
            },
            FoldValue::Bool(x) => if target == Some("bool"@) {
                Ok(FoldOutcome::Value(FoldValue::Bool(x)))
            } else {
                not_applicable
            },
        }
    } else {
        not_applicable
    }
}

fn fold_error(code: ErrorCode) -> (r: AgentError)
    ensures
        r.code == code,
{
    match code {
        ErrorCode::RewriteNotApplicable => AgentError::new(code, "constant operand kinds do not match the operation"),
        ErrorCode::RewritePreconditionFailed => AgentError::new(code, "the constant fold is not defined"),
        _ => AgentError::new(code, "constant folding failed"),
    }
}

fn parse_predicate(p: &str) -> (r: Option<ComparePredicate>)
    ensures
        r == predicate_of(p@),
{
    proof {
        reveal_strlit("eq");
        reveal_strlit("ne");
        reveal_strlit("lt");
        reveal_strlit("le");
        reveal_strlit("gt");
        reveal_strlit("ge");
    }
    if str_eq(p, "eq") {
        Some(ComparePredicate::Eq)
    } else if str_eq(p, "ne") {
        Some(ComparePredicate::Ne)
    } else if str_eq(p, "lt") {
        Some(ComparePredicate::Lt)
    } else if str_eq(p, "le") {
        Some(ComparePredicate::Le)
    } else if str_eq(p, "gt") {
        Some(ComparePredicate::Gt)
    } else if str_eq(p, "ge") {
        Some(ComparePredicate::Ge)
    } else {
        None
    }
}

fn compare_i32(p: ComparePredicate, a: i32, b: i32) -> (r: bool)
    ensures
        r == compare_ints(p, a as int, b as int),
{
    match p {
        ComparePredicate::Eq => a == b,
        ComparePredicate::Ne => a != b,
        ComparePredicate::Lt => a < b,
        ComparePredicate::Le => a <= b,
        ComparePredicate::Gt => a > b,
        ComparePredicate::Ge => a >= b,
    }
}

fn target_is(target: Option<&str>, name: &str) -> (r: bool)
    ensures
        r == (opt_str_view(target) == Some(name@)),
{
    match target {
        Some(t) => str_eq(t, name),
        None => false,
    }
}

/// Folding `select(c, a, b)` with a constant boolean condition yields the
/// first branch `a` when `c` is true and the second branch `b` when it is
/// false, whatever the branch values, predicate or target.
pub proof fn law_select_folds_to_chosen_branch(
    c: bool,
    a: FoldValue,
    b: FoldValue,
    pred: Seq<char>,
    target: Option<Seq<char>>,
)
    ensures
        c ==> fold_spec(Opcode::Select, seq![FoldValue::Bool(c), a, b], pred, target) == Ok::<FoldOutcome, ErrorCode>(
            FoldOutcome::Value(a),
        ),
        !c ==> fold_spec(Opcode::Select, seq![FoldValue::Bool(c), a, b], pred, target) == Ok::<FoldOutcome, ErrorCode>(
            FoldOutcome::Value(b),
        ),
        fold_spec(Opcode::Select, seq![FoldValue::Bool(true), a, b], pred, target) != fold_spec(
            Opcode::Select,
            seq![FoldValue::Bool(false), a, b],
            pred,
            target,
        ) <==> a != b,
{
    let v = seq![FoldValue::Bool(c), a, b];
    assert(v.len() == 3 && v[0] == FoldValue::Bool(c) && v[1] == a && v[2] == b);
    let t = seq![FoldValue::Bool(true), a, b];
    let u = seq![FoldValue::Bool(false), a, b];
    assert(t.len() == 3 && t[0] == FoldValue::Bool(true) && t[1] == a && t[2] == b);
    assert(u.len() == 3 && u[0] == FoldValue::Bool(false) && u[1] == a && u[2] == b);
}

/// Folds an operation on constant operands, given the `predicate` attribute
/// text (`eq` when absent) and the `target_type` attribute text.
pub fn fold_values(op: Opcode, v: &[FoldValue], pred: &str, target: Option<&str>) -> (r: AgentResult<FoldOutcome>)
    ensures
        match fold_spec(op, v@, pred@, opt_str_view(target)) {
            Ok(o) => r matches Ok(x) && x == o,
            Err(c) => r matches Err(e) && e.code == c,
        },
{
    proof {
        reveal_strlit("eq");
        reveal_strlit("ne");
        reveal_strlit("i32");
        reveal_strlit("index");
        reveal_strlit("f32");
        reveal_strlit("bool");
    }
    let n = v.len();
    let is_int_target = target_is(target, "i32") || target_is(target, "index");
    let outcome: Result<FoldOutcome, ErrorCode> = if n == 2 && (op == Opcode::Add || op == Opcode::Sub || op
        == Opcode::Mul || op == Opcode::Div) {
        match (v[0], v[1]) {
            (FoldValue::I32(a), FoldValue::I32(b)) => {
                let r = if op == Opcode::Add {
                    a.checked_add(b)
                } else if op == Opcode::Sub {
                    a.checked_sub(b)
                } else if op == Opcode::Mul {
                    a.checked_mul(b)
                } else {
                    a.checked_div(b)
                };
                match r {
                    Some(x) => Ok(FoldOutcome::Value(FoldValue::I32(x))),
                    None => Err(ErrorCode::RewritePreconditionFailed),
                }
            },
            (FoldValue::F32(a), FoldValue::F32(b)) => if op == Opcode::Div && b & 0x7fff_ffffu32 == 0 {
                Err(ErrorCode::RewritePreconditionFailed)
            } else if op == Opcode::Add {
                Ok(FoldOutcome::Float(FloatFold::Add(a, b)))
            } else if op == Opcode::Sub {
                Ok(FoldOutcome::Float(FloatFold::Sub(a, b)))
            } else if op == Opcode::Mul {
                Ok(FoldOutcome::Float(FloatFold::Mul(a, b)))
            } else {
                Ok(FoldOutcome::Float(FloatFold::Div(a, b)))
            },
            _ => Err(ErrorCode::RewriteNotApplicable),
        }
    } else if n == 3 && op == Opcode::Fma {
        match (v[0], v[1], v[2]) {
            (FoldValue::I32(a), FoldValue::I32(b), FoldValue::I32(c)) => match a.checked_mul(b) {
                Some(m) => match m.checked_add(c) {
                    Some(x) => Ok(FoldOutcome::Value(FoldValue::I32(x))),
                    None => Err(ErrorCode::RewritePreconditionFailed),
                },
                None => Err(ErrorCode::RewritePreconditionFailed),
            },
            (FoldValue::F32(a), FoldValue::F32(b), FoldValue::F32(c)) => Ok(FoldOutcome::Float(FloatFold::Fma(a, b, c))),
            _ => Err(ErrorCode::RewriteNotApplicable),
        }
    } else if n == 2 && op == Opcode::Compare {
        match (v[0], v[1]) {
            (FoldValue::Bool(a), FoldValue::Bool(b)) => if str_eq(pred, "eq") {
                Ok(FoldOutcome::Value(FoldValue::Bool(a == b)))
            } else if str_eq(pred, "ne") {
                Ok(FoldOutcome::Value(FoldValue::Bool(a != b)))
            } else {
                Err(ErrorCode::RewritePreconditionFailed)
            },
            (FoldValue::I32(a), FoldValue::I32(b)) => match parse_predicate(pred) {
                Some(p) => Ok(FoldOutcome::Value(FoldValue::Bool(compare_i32(p, a, b)))),
                None => Err(ErrorCode::RewritePreconditionFailed),
            },
            (FoldValue::F32(a), FoldValue::F32(b)) => match parse_predicate(pred) {
                Some(p) => Ok(FoldOutcome::Float(FloatFold::Compare(p, a, b))),
                None => Err(ErrorCode::RewritePreconditionFailed),
            },
            _ => Err(ErrorCode::RewriteNotApplicable),
        }
    } else if n == 3 && op == Opcode::Select {
        match v[0] {
            FoldValue::Bool(c) => Ok(FoldOutcome::Value(if c { v[1] } else { v[2] })),
            _ => Err(ErrorCode::RewriteNotApplicable),
        }
    } else if n == 1 && op == Opcode::Cast {
        match v[0] {
            FoldValue::I32(x) => if is_int_target {
                Ok(FoldOutcome::Value(FoldValue::I32(x)))
            } else if target_is(target, "f32") {
                Ok(FoldOutcome::Float(FloatFold::FromI32(x)))
            } else {
                Err(ErrorCode::RewritePreconditionFailed)
            },
            FoldValue::F32(b) => if target_is(target, "f32") {
                Ok(FoldOutcome::Value(FoldValue::F32(b)))
            } else if is_int_target {
                Ok(FoldOutcome::Float(FloatFold::ToI32(b)))
            } else {
                Err(ErrorCode::RewritePreconditionFailed)
            },
            FoldValue::Bool(x) => if target_is(target, "bool") {
                Ok(FoldOutcome::Value(FoldValue::Bool(x)))
            } else {
                Err(ErrorCode::RewriteNotApplicable)
            },
        }
    } else {
        Err(ErrorCode::RewriteNotApplicable)
    };
    match outcome {
        Ok(o) => Ok(o),
        Err(c) => Err(fold_error(c)),
    }
}

// ---------------------------------------------------------------------------
// Constants and operands.

/// Whether a constant holds exactly a folded value.
pub open spec fn constant_matches(c: ConstantValue, v: FoldValue) -> bool {
    match (c, v) {
        (ConstantValue::Bool { value }, FoldValue::Bool(b)) => value == b,
        (ConstantValue::I32 { value }, FoldValue::I32(x)) => value == x,
        (ConstantValue::F32 { bits }, FoldValue::F32(b)) => bits@ == f32_text(b),
        _ => false,
    }
}

/// Turns evaluated binary32 bits into a constant; non-finite results are
/// not a defined fold.
pub fn float_constant(bits: u32) -> (r: AgentResult<ConstantValue>)
    ensures
        f32_finite(bits) ==> (r matches Ok(c) && constant_matches(c, FoldValue::F32(bits))),
        !f32_finite(bits) ==> (r matches Err(e) && e.code == ErrorCode::RewritePreconditionFailed),
{
    if bits & 0x7f80_0000u32 == 0x7f80_0000u32 {
        Err(AgentError::new(ErrorCode::RewritePreconditionFailed, "non-finite f32 result is not a defined Stage 2A fold"))
    } else {
        Ok(ConstantValue::F32 { bits: f32_bits_text(bits) })
    }
}

/// The fold operand that a constant of a declared type denotes.
pub open spec fn operand_spec(c: ConstantValue, ty: Type) -> Result<FoldValue, ErrorCode> {
    match (c, ty) {
        (ConstantValue::Bool { value }, Type::Scalar(ScalarType::Bool)) => Ok(FoldValue::Bool(value)),
        (ConstantValue::I32 { value }, Type::Scalar(ScalarType::I32)) => Ok(FoldValue::I32(value)),
        (ConstantValue::I32 { value }, Type::Scalar(ScalarType::Index)) => Ok(FoldValue::I32(value)),
        (ConstantValue::F32 { bits }, Type::Scalar(ScalarType::F32)) => match f32_bits_of(bits@) {
            Some(b) => if f32_finite(b) {
                Ok(FoldValue::F32(b))
            } else {
                Err(ErrorCode::RewritePreconditionFailed)
            },
            None => Err(ErrorCode::RewritePreconditionFailed),
        },
        _ => Err(ErrorCode::RewriteNotApplicable),
    }
}

/// Reads a constant of a declared type as a fold operand.
pub fn fold_operand(constant: &ConstantValue, ty: &Type) -> (r: AgentResult<FoldValue>)
    ensures
        match operand_spec(*constant, *ty) {
            Ok(v) => r matches Ok(x) && x == v,
            Err(c) => r matches Err(e) && e.code == c,
        },
{
    match (constant, ty) {
        (ConstantValue::Bool { value }, Type::Scalar(ScalarType::Bool)) => Ok(FoldValue::Bool(*value)),
        (ConstantValue::I32 { value }, Type::Scalar(ScalarType::I32)) => Ok(FoldValue::I32(*value)),
        (ConstantValue::I32 { value }, Type::Scalar(ScalarType::Index)) => Ok(FoldValue::I32(*value)),
        (ConstantValue::F32 { bits }, Type::Scalar(ScalarType::F32)) => match parse_f32_bits(bits.as_str()) {
            Some(b) => if b & 0x7f80_0000u32 != 0x7f80_0000u32 {
                Ok(FoldValue::F32(b))
            } else {
                Err(AgentError::new(
                    ErrorCode::RewritePreconditionFailed,
                    "non-finite f32 payload is not foldable in Stage 2A",
                ))
            },
            None => Err(AgentError::new(ErrorCode::RewritePreconditionFailed, "invalid f32 constant bits")),
        },
        _ => Err(AgentError::new(ErrorCode::RewriteNotApplicable, "constant operand type does not match its value")),
    }
}

/// The fold operand of value `v` of a program.
pub open spec fn operand_at(p: ImplProgram, v: Seq<char>) -> Result<FoldValue, ErrorCode> {
    if !p.values@.contains_key(v) {
        Err(ErrorCode::ImplVerificationFailed)
    } else if !p.constants@.contains_key(v) {
        Err(ErrorCode::RewriteNotApplicable)
    } else {
        operand_spec(p.constants@[v], p.values@[v].ty)
    }
}

/// The fold operands of the first `i` operand values, or the first error.
pub open spec fn operands_upto(p: ImplProgram, ops: Seq<String>, i: nat) -> Result<Seq<FoldValue>, ErrorCode>
    decreases i,
{
    if i == 0 {
        Ok(Seq::empty())
    } else {
        match operands_upto(p, ops, (i - 1) as nat) {
            Err(c) => Err(c),
            Ok(s) => match operand_at(p, ops[i - 1]@) {
                Err(c) => Err(c),
                Ok(x) => Ok(s.push(x)),
            },
        }
    }
}

proof fn lemma_operands_error_persists(p: ImplProgram, ops: Seq<String>, i: nat, j: nat)
    requires
        i <= j,
        operands_upto(p, ops, i) is Err,
    ensures
        operands_upto(p, ops, j) == operands_upto(p, ops, i),
    decreases j - i,
{
    if i < j {
        lemma_operands_error_persists(p, ops, i, (j - 1) as nat);
    }
}

/// The checks before any attribute is read: the target operation exists, is
/// a foldable scalar operation with one scalar result, and every operand is
/// a well-typed constant. Yields the operation's opcode and operands.
pub open spec fn fold_inputs(p: ImplProgram, target: Seq<char>) -> Result<(Opcode, Seq<FoldValue>), ErrorCode> {
    if !p.operations@.contains_key(target) {
        Err(ErrorCode::RewriteNotApplicable)
    } else {
        let op = p.operations@[target];
        if !foldable_opcode(op.opcode) || op.results@.len() != 1 {
            Err(ErrorCode::RewriteNotApplicable)
        } else if !(op.result_types@.len() > 0 && op.result_types@[0] is Scalar) {
            Err(ErrorCode::RewriteNotApplicable)
        } else {
            match operands_upto(p, op.operands@, op.operands@.len()) {
                Err(c) => Err(c),
                Ok(s) => Ok((op.opcode, s)),
            }
        }
    }
}

/// Whether a fold step is what a fold outcome denotes.
pub open spec fn step_matches(r: AgentResult<FoldStep>, s: Result<FoldOutcome, ErrorCode>) -> bool {
    match s {
        Err(c) => r matches Err(e) && e.code == c,
        Ok(FoldOutcome::Float(f)) => r matches Ok(FoldStep::Float(g)) && g == f,
        Ok(FoldOutcome::Value(v)) => match v {
            FoldValue::F32(b) => if f32_finite(b) {
                r matches Ok(FoldStep::Constant(c)) && constant_matches(c, v)
            } else {
                r matches Err(e) && e.code == ErrorCode::RewritePreconditionFailed
            },
            _ => r matches Ok(FoldStep::Constant(c)) && constant_matches(c, v),
        },
    }
}

/// The text of attribute `key`, when it is present and a JSON string.
pub open spec fn attribute_text_of(attributes: Map<Seq<char>, JsonLit>, key: Seq<char>) -> Option<Seq<char>> {
    if attributes.contains_key(key) {
        lit_text(attributes[key])
    } else {
        None
    }
}

/// The comparison predicate of an operation: its `predicate` text, `eq` when absent.
pub open spec fn predicate_attribute(attributes: Map<Seq<char>, JsonLit>) -> Seq<char> {
    match attribute_text_of(attributes, "predicate"@) {
        Some(p) => p,
        None => "eq"@,
    }
}

fn attribute_text(attributes: &IdMap<JsonLit>, key: &str) -> (r: Option<String>)
    ensures
        opt_str_view_owned(r) == attribute_text_of(attributes@, key@),
{
    match attributes.get(key) {
        Some(v) => match v.text() {
            Some(t) => Some(t.to_string()),
            None => None,
        },
        None => None,
    }
}

/// The view of an optional string.
pub open spec fn opt_str_view_owned(t: Option<String>) -> Option<Seq<char>> {
    match t {
        Some(s) => Some(s@),
        None => None,
    }
}

/// Folds the constant operation `target` of an implementation program.
/// Everything before the attributes are read is decided exactly; the result
/// is then the fold of the operands under the operation's `predicate`
/// (`eq` when absent) and `target_type` attribute texts.
pub fn fold_operation(program: &ImplProgram, target: &str) -> (r: AgentResult<FoldStep>)
    ensures
        match fold_inputs(*program, target@) {
            Err(c) => r matches Err(e) && e.code == c,
            Ok(inputs) => step_matches(
                r,
                fold_spec(
                    inputs.0,
                    inputs.1,
                    predicate_attribute(program.operations@[target@].attributes@),
                    attribute_text_of(program.operations@[target@].attributes@, "target_type"@),
                ),
            ),
        },
{
    let operation = match program.operations.get(target) {
        Some(o) => o,
        None => {
            return Err(AgentError::new(ErrorCode::RewriteNotApplicable, "rewrite target does not exist"));
        },
    };
    let op = operation.opcode;
    if !(op == Opcode::Add || op == Opcode::Sub || op == Opcode::Mul || op == Opcode::Div || op == Opcode::Fma
        || op == Opcode::Compare || op == Opcode::Cast || op == Opcode::Select) || operation.results.len() != 1 {
        return Err(AgentError::new(ErrorCode::RewriteNotApplicable, "target opcode is not a foldable scalar operation"));
    }
    let scalar_result = operation.result_types.len() > 0 && match &operation.result_types[0] {
        Type::Scalar(_) => true,
        _ => false,
    };
    if !scalar_result {
        return Err(AgentError::new(ErrorCode::RewriteNotApplicable, "constant folding is restricted to scalar results"));
    }
    let mut values: Vec<FoldValue> = Vec::new();
    let mut i: usize = 0;
    while i < operation.operands.len()
        invariant
            program.operations@.contains_key(target@),
            program.operations@[target@] == *operation,
            op == operation.opcode,
            foldable_opcode(op),
            operation.results@.len() == 1,
            operation.result_types@.len() > 0 && operation.result_types@[0] is Scalar,
            i <= operation.operands@.len(),
            operands_upto(*program, operation.operands@, i as nat) == Ok::<Seq<FoldValue>, ErrorCode>(values@),
        decreases operation.operands.len() - i,
    {
        let v = &operation.operands[i];
        let definition = match program.values.get(v.as_str()) {
            Some(d) => d,
            None => {
                proof {
                    lemma_operands_error_persists(*program, operation.operands@, (i + 1) as nat, operation.operands@.len());
                }
                return Err(AgentError::new(ErrorCode::ImplVerificationFailed, "operand missing"));
            },
        };
        let constant = match program.constants.get(v.as_str()) {
            Some(c) => c,
            None => {
                proof {
                    lemma_operands_error_persists(*program, operation.operands@, (i + 1) as nat, operation.operands@.len());
                }
                return Err(AgentError::new(ErrorCode::RewriteNotApplicable, "not every operand is a scalar constant"));
            },
        };
        match fold_operand(constant, &definition.ty) {
            Ok(x) => values.push(x),
            Err(e) => {
                proof {
                    lemma_operands_error_persists(*program, operation.operands@, (i + 1) as nat, operation.operands@.len());
                }
                return Err(e);
            },
        }
        i = i + 1;
    }
    let predicate_text = attribute_text(&operation.attributes, "predicate");
    let target_text = attribute_text(&operation.attributes, "target_type");
    let predicate: &str = match &predicate_text {
        Some(p) => p.as_str(),
        None => "eq",
    };
    proof {
        reveal_strlit("predicate");
        reveal_strlit("target_type");
        reveal_strlit("eq");
    }
    let target_type: Option<&str> = match &target_text {
        Some(t) => Some(t.as_str()),
        None => None,
    };
    let outcome = fold_values(op, values.as_slice(), predicate, target_type);
    let r = match outcome {
        Err(e) => Err(e),
        Ok(FoldOutcome::Float(f)) => Ok(FoldStep::Float(f)),
        Ok(FoldOutcome::Value(FoldValue::Bool(b))) => Ok(FoldStep::Constant(ConstantValue::Bool { value: b })),
        Ok(FoldOutcome::Value(FoldValue::I32(x))) => Ok(FoldStep::Constant(ConstantValue::I32 { value: x })),
        Ok(FoldOutcome::Value(FoldValue::F32(b))) => match float_constant(b) {
            Ok(c) => Ok(FoldStep::Constant(c)),
            Err(e) => Err(e),
        },
    };
    proof {
        assert(operation.operands@.len() == i);
        assert(fold_inputs(*program, target@) == Ok::<(Opcode, Seq<FoldValue>), ErrorCode>((op, values@)));
        assert(step_matches(r, fold_spec(op, values@, predicate@, opt_str_view(target_type))));
    }
    r
}

/// Whether `r` is the constant that a JSON literal reads as under scalar type
/// `ty`, where `b`, `i`, `number_bits` and `text` are what the literal holds
/// as a boolean, as a 64-bit integer, as a number rounded to binary32 bits
/// and as a string: a boolean for `bool`; an integer in `i32` range for
/// `i32` and `index`; for `f32`, a number, else a string of bits with its
/// `0x` prefixes stripped, both written back canonically.
pub open spec fn json_constant_is(
    r: Result<ConstantValue, String>,
    ty: ScalarType,
    b: Option<bool>,
    i: Option<i64>,
    number_bits: Option<u32>,
    text: Option<Seq<char>>,
) -> bool {
    match ty {
        ScalarType::Bool => match b {
            Some(x) => r matches Ok(ConstantValue::Bool { value }) && value == x,
            None => r matches Err(m) && m@ == "expected a JSON boolean"@,
        },
        ScalarType::F32 => {
            let bits = match number_bits {
                Some(n) => Some(n),
                None => match text {
                    Some(t) => f32_bits_of(t),
                    None => None,
                },
            };
            match bits {
                Some(n) => r matches Ok(ConstantValue::F32 { bits: s }) && s@ == f32_text(n),
                None => r matches Err(m) && m@ == "expected f32 number or 0x-prefixed bits"@,
            }
        },
        _ => match i {
            Some(x) => if i32::MIN <= x <= i32::MAX {
                r matches Ok(ConstantValue::I32 { value }) && value == x
            } else {
                r matches Err(m) && m@ == "expected a JSON integer in i32 range"@
            },
            None => r matches Err(m) && m@ == "expected a JSON integer in i32 range"@,
        },
    }
}

/// Reads a constant from what a JSON literal holds as a boolean, a 64-bit
/// integer, a number rounded to binary32 bits and a string.
pub fn constant_from_parts(
    ty: ScalarType,
    b: Option<bool>,
    i: Option<i64>,
    number_bits: Option<u32>,
    text: Option<&str>,
) -> (r: Result<ConstantValue, String>)
    ensures
        json_constant_is(r, ty, b, i, number_bits, opt_str_view(text)),
{
    match ty {
        ScalarType::Bool => match b {
            Some(x) => Ok(ConstantValue::Bool { value: x }),
            None => Err(String::from_str("expected a JSON boolean")),
        },
        ScalarType::F32 => {
            let bits = match number_bits {
                Some(n) => Some(n),
                None => match text {
                    Some(t) => parse_f32_bits(t),
                    None => None,
                },
            };
            match bits {
                Some(n) => Ok(ConstantValue::F32 { bits: f32_bits_text(n) }),
                None => Err(String::from_str("expected f32 number or 0x-prefixed bits")),
            }
        },
        _ => match i {
            Some(x) => if -2147483648i64 <= x && x <= 2147483647i64 {
                Ok(ConstantValue::I32 { value: x as i32 })
            } else {
                Err(String::from_str("expected a JSON integer in i32 range"))
            },
            None => Err(String::from_str("expected a JSON integer in i32 range")),
        },
    }
}

impl ConstantValue {
    /// Parses a wire JSON literal according to an explicitly supplied scalar
    /// type: a boolean for `bool`; an integer in `i32` range for `i32` and
    /// `index`; for `f32`, a number by its binary32 rounding, else a string of
    /// bits with its `0x` prefixes stripped.
    pub fn from_json(ty: ScalarType, value: &JsonLit) -> (r: Result<ConstantValue, String>)
        ensures
            json_constant_is(r, ty, lit_bool(*value), lit_int(*value), lit_binary32(*value), lit_text(*value)),
    {
        match value {
            JsonLit::Bool(b) => constant_from_parts(ty, Some(*b), None, None, None),
            JsonLit::Number { integer, binary32, .. } => constant_from_parts(ty, None, *integer, Some(*binary32), None),
            JsonLit::Text(t) => constant_from_parts(ty, None, None, None, Some(t.as_str())),
            JsonLit::Other(_) => constant_from_parts(ty, None, None, None, None),
        }
    }
}

} // verus!
