//! Deterministic compact facts for shape constraints: a flat union-find over
//! declared dimension symbols, static bindings of symbol classes,
//! non-negativity, and the canonically ordered set of accepted constraints.

use crate::constraint_order::{
    constraint_views, constraints_sorted, insert_sorted_constraint, lemma_sorted_insert, lemma_sorted_unique,
    sorted_contains, sorted_insert,
};
use crate::diagnostics::{AgentError, AgentResult, ErrorCode};
use crate::idmap::IdMap;
use crate::ir::{Dimension, Program};
use crate::text::{decimal, digit_char, digit_str, push_decimal, seq_less, str_eq, str_less};
use crate::types::{plus_signed_decimal, signed_decimal, ConstraintV, DimExpr, DimV, Shape, ShapeConstraint};
use vstd::prelude::*;

verus! {

/// A normalized proof returned by the compact fact engine.
#[derive(Debug)]
pub struct ConstraintProof {
    /// Deterministic normalized left shape.
    pub normalized_left: String,
    /// Deterministic normalized right shape.
    pub normalized_right: String,
    /// Accepted facts sufficient for this compact derivation.
    pub facts: Vec<ShapeConstraint>,
}

/// Deterministic evidence for a proven conflict.
#[derive(Debug)]
pub struct ConstraintContradiction {
    /// Constraint whose normalized form contradicts the fact set.
    pub normalized_constraint: ShapeConstraint,
    /// Previously accepted facts participating in deterministic order.
    pub conflicting_facts: Vec<ShapeConstraint>,
    /// Expected normalized fact.
    pub expected: String,
    /// Conflicting normalized fact.
    pub actual: String,
}

/// Result of a compact constraint query.
#[derive(Debug)]
pub enum ConstraintQueryResult {
    /// Equality follows from accepted compact facts.
    Proved {
        /// Deterministic proof evidence.
        proof: ConstraintProof,
    },
    /// Equality is impossible under accepted compact facts.
    Contradiction {
        /// Deterministic conflict evidence.
        contradiction: ConstraintContradiction,
    },
    /// The supported rules cannot decide equality.
    Unknown,
}

/// Model of a query result.
pub enum QueryV {
    /// Proved, with the normalized left and right texts and the accepted facts.
    Proved(Seq<char>, Seq<char>, Seq<ConstraintV>),
    /// Contradiction: the constraint, the accepted facts, expected and actual texts.
    Contradiction(ConstraintV, Seq<ConstraintV>, Seq<char>, Seq<char>),
    /// Undecided.
    Unknown,
}

impl View for ConstraintQueryResult {
    type V = QueryV;

    open spec fn view(&self) -> QueryV {
        match self {
            ConstraintQueryResult::Proved { proof } => QueryV::Proved(
                proof.normalized_left@,
                proof.normalized_right@,
                constraint_views(proof.facts@),
            ),
            ConstraintQueryResult::Contradiction { contradiction } => QueryV::Contradiction(
                contradiction.normalized_constraint@,
                constraint_views(contradiction.conflicting_facts@),
                contradiction.expected@,
                contradiction.actual@,
            ),
            ConstraintQueryResult::Unknown => QueryV::Unknown,
        }
    }
}

/// A normalized dimension: a static value, or `coefficient * root + constant`
/// for an unbound symbol class.
enum NormalizedDim {
    Static(i128),
    Affine { coefficient: i64, symbol: String, constant: i64 },
}

/// Model of a normalized dimension.
pub enum NormV {
    /// Static value.
    Static(int),
    /// Affine in a class representative.
    Affine(i64, Seq<char>, i64),
}

impl View for NormalizedDim {
    type V = NormV;

    closed spec fn view(&self) -> NormV {
        match self {
            NormalizedDim::Static(v) => NormV::Static(*v as int),
            NormalizedDim::Affine { coefficient, symbol, constant } => NormV::Affine(*coefficient, symbol@, *constant),
        }
    }
}

/// Model of the compact facts.
pub struct FactsV {
    /// Each declared symbol mapped to its class representative.
    pub parents: Map<Seq<char>, Seq<char>>,
    /// Static values of class representatives.
    pub statics: Map<Seq<char>, u64>,
    /// Representatives known non-negative.
    pub nonneg: Set<Seq<char>>,
    /// Accepted constraints in canonical order.
    pub facts: Seq<ConstraintV>,
}

/// Every symbol points directly at a representative that points at itself.
pub open spec fn flat(p: Map<Seq<char>, Seq<char>>) -> bool {
    forall|k: Seq<char>| #[trigger] p.contains_key(k) ==> p.contains_key(p[k]) && p[p[k]] == p[k]
}

/// Immutable-derived, deterministically updated compact fact model.
#[derive(Debug)]
pub struct ConstraintFacts {
    parent: IdMap<String>,
    static_bindings: IdMap<u64>,
    non_negative: IdMap<()>,
    accepted: Vec<ShapeConstraint>,
}

/// The model of the four tables.
pub open spec fn facts_model(parent: IdMap<String>, statics: IdMap<u64>, nonneg: IdMap<()>, accepted: Seq<ShapeConstraint>) -> FactsV {
    FactsV {
        parents: parent@.map_values(|s: String| s@),
        statics: statics@,
        nonneg: nonneg@.dom(),
        facts: constraint_views(accepted),
    }
}

/// Well-formed facts: a flat forest and canonically sorted accepted facts.
pub open spec fn facts_wf(f: FactsV) -> bool {
    flat(f.parents) && constraints_sorted(f.facts)
}

impl View for ConstraintFacts {
    type V = FactsV;

    closed spec fn view(&self) -> FactsV {
        facts_model(self.parent, self.static_bindings, self.non_negative, self.accepted@)
    }
}

impl ConstraintFacts {
    #[verifier::type_invariant]
    closed spec fn inv(self) -> bool {
        facts_wf(self@)
    }
}

// ---------------------------------------------------------------------------
// Normalization.

/// The class representative of a declared symbol.
pub open spec fn root_of(f: FactsV, s: Seq<char>) -> Option<Seq<char>> {
    if f.parents.contains_key(s) {
        Some(f.parents[s])
    } else {
        None
    }
}

/// The normalized form of a dimension, or `None` for an undeclared symbol.
pub open spec fn norm_dim(f: FactsV, d: DimV) -> Option<NormV> {
    match d {
        DimV::Static(v) => Some(NormV::Static(v as int)),
        DimV::Symbol(s) => match root_of(f, s) {
            None => None,
            Some(r) => if f.statics.contains_key(r) {
                Some(NormV::Static(f.statics[r] as int))
            } else {
                Some(NormV::Affine(1, r, 0))
            },
        },
        DimV::Affine(c, s, k) => match root_of(f, s) {
            None => None,
            Some(r) => if f.statics.contains_key(r) {
                Some(NormV::Static(c * f.statics[r] + k))
            } else {
                Some(NormV::Affine(c, r, k))
            },
        },
    }
}

/// Text of a normalized dimension: a signed integer, or `c*symbol±k`.
pub open spec fn norm_text(n: NormV) -> Seq<char> {
    match n {
        NormV::Static(v) => signed_decimal(v),
        NormV::Affine(c, s, k) => signed_decimal(c as int) + "*"@ + s + plus_signed_decimal(k as int),
    }
}

/// Comma-separated normalized texts of the dimensions.
pub open spec fn joined_dims(f: FactsV, dims: Seq<DimV>) -> Option<Seq<char>>
    decreases dims.len(),
{
    if dims.len() == 0 {
        Some(Seq::empty())
    } else {
        match (joined_dims(f, dims.drop_last()), norm_dim(f, dims.last())) {
            (Some(t), Some(n)) => Some(if dims.len() == 1 { norm_text(n) } else { t + ","@ + norm_text(n) }),
            _ => None,
        }
    }
}

/// Normalized text of a shape: `[d0,d1,...]`.
pub open spec fn norm_shape(f: FactsV, dims: Seq<DimV>) -> Option<Seq<char>> {
    match joined_dims(f, dims) {
        Some(t) => Some("["@ + t + "]"@),
        None => None,
    }
}

/// Model of a raw comparison.
pub enum RawV {
    /// Every dimension pair normalizes equal.
    Proved,
    /// A dimension pair provably differs: expected and actual texts.
    Contradiction(Seq<char>, Seq<char>),
    /// Some pair cannot be decided.
    Unknown,
}

/// Compares dimension pairs from position `k` on, `unknown` recording an
/// undecided earlier pair.
pub open spec fn raw_scan(f: FactsV, l: Seq<DimV>, r: Seq<DimV>, k: nat, unknown: bool) -> Option<RawV>
    decreases l.len() - k,
{
    if k >= l.len() {
        Some(if unknown { RawV::Unknown } else { RawV::Proved })
    } else {
        match (norm_dim(f, l[k as int]), norm_dim(f, r[k as int])) {
            (Some(a), Some(b)) => if a == b {
                raw_scan(f, l, r, k + 1, unknown)
            } else {
                match (a, b) {
                    (NormV::Static(_), NormV::Static(_)) => Some(RawV::Contradiction(norm_text(a), norm_text(b))),
                    (NormV::Affine(c1, s1, _), NormV::Affine(c2, s2, _)) => if s1 == s2 && c1 == c2 {
                        Some(RawV::Contradiction(norm_text(a), norm_text(b)))
                    } else {
                        raw_scan(f, l, r, k + 1, true)
                    },
                    _ => raw_scan(f, l, r, k + 1, true),
                }
            },
            _ => None,
        }
    }
}

/// Raw equality of two shapes under the facts; `None` for an undeclared symbol.
pub open spec fn raw_query(f: FactsV, l: Seq<DimV>, r: Seq<DimV>) -> Option<RawV> {
    if l.len() != r.len() {
        Some(RawV::Contradiction("rank "@ + decimal(l.len()), "rank "@ + decimal(r.len())))
    } else {
        raw_scan(f, l, r, 0, false)
    }
}

/// The answer to an equality query of two shapes; `None` for an undeclared symbol.
pub open spec fn shape_query(f: FactsV, l: Seq<DimV>, r: Seq<DimV>) -> Option<QueryV> {
    let proved = match (norm_shape(f, l), norm_shape(f, r)) {
        (Some(a), Some(b)) => Some(QueryV::Proved(a, b, f.facts)),
        _ => None,
    };
    if f.facts.contains(ConstraintV::Equal(l, r)) || f.facts.contains(ConstraintV::Equal(r, l)) {
        proved
    } else {
        match raw_query(f, l, r) {
            None => None,
            Some(RawV::Proved) => proved,
            Some(RawV::Unknown) => Some(QueryV::Unknown),
            Some(RawV::Contradiction(e, a)) => Some(QueryV::Contradiction(ConstraintV::Equal(l, r), f.facts, e, a)),
        }
    }
}

// ---------------------------------------------------------------------------
// Rendering.

/// Appends the decimal rendering of a wide unsigned value.
fn push_decimal_wide(out: &mut String, n: u128)
    ensures
        final(out)@ == old(out)@ + decimal(n as nat),
    decreases n,
{
    if n < 10 {
        out.append(digit_str(n as u64));
    } else {
        push_decimal_wide(out, n / 10);
        out.append(digit_str((n % 10) as u64));
        proof {
            assert(old(out)@ + decimal(n as nat) =~= old(out)@ + decimal((n / 10) as nat) + seq![digit_char((n % 10) as nat)]);
        }
    }
}

/// Appends a wide signed value, with an explicit `+` for non-negative values when `plus`.
fn push_signed_wide(out: &mut String, x: i128, plus: bool)
    ensures
        plus ==> final(out)@ == old(out)@ + plus_signed_decimal(x as int),
        !plus ==> final(out)@ == old(out)@ + signed_decimal(x as int),
{
    proof {
        reveal_strlit("-");
        reveal_strlit("+");
    }
    if x < 0 {
        out.append("-");
        let magnitude: u128 = ((-(x + 1)) as u128) + 1;
        assert(magnitude == -x);
        push_decimal_wide(out, magnitude);
        assert(final(out)@ =~= old(out)@ + ("-"@ + decimal((-x) as nat)));
    } else {
        if plus {
            out.append("+");
            push_decimal_wide(out, x as u128);
            assert(final(out)@ =~= old(out)@ + ("+"@ + decimal(x as nat)));
        } else {
            push_decimal_wide(out, x as u128);
        }
    }
}

fn push_norm_text(out: &mut String, n: &NormalizedDim)
    ensures
        final(out)@ == old(out)@ + norm_text(n@),
{
    match n {
        NormalizedDim::Static(v) => {
            push_signed_wide(out, *v, false);
        },
        NormalizedDim::Affine { coefficient, symbol, constant } => {
            let ghost start = out@;
            push_signed_wide(out, *coefficient as i128, false);
            out.append("*");
            out.append(symbol.as_str());
            push_signed_wide(out, *constant as i128, true);
            proof {
                assert(final(out)@ =~= start + norm_text(n@));
            }
        },
    }
}

fn norm_same(a: &NormalizedDim, b: &NormalizedDim) -> (r: bool)
    ensures
        r == (a@ == b@),
{
    match (a, b) {
        (NormalizedDim::Static(x), NormalizedDim::Static(y)) => *x == *y,
        (
            NormalizedDim::Affine { coefficient: c1, symbol: s1, constant: k1 },
            NormalizedDim::Affine { coefficient: c2, symbol: s2, constant: k2 },
        ) => *c1 == *c2 && *k1 == *k2 && str_eq(s1.as_str(), s2.as_str()),
        _ => false,
    }
}

/// A private raw comparison result.
enum RawQuery {
    Proved,
    Contradiction { expected: String, actual: String },
    Unknown,
}

impl View for RawQuery {
    type V = RawV;

    closed spec fn view(&self) -> RawV {
        match self {
            RawQuery::Proved => RawV::Proved,
            RawQuery::Contradiction { expected, actual } => RawV::Contradiction(expected@, actual@),
            RawQuery::Unknown => RawV::Unknown,
        }
    }
}

fn constraint_error(code: ErrorCode, message: &str) -> (r: AgentError)
    ensures
        r.code == code,
{
    AgentError::new(code, message)
}

fn copy_constraints(v: &Vec<ShapeConstraint>) -> (r: Vec<ShapeConstraint>)
    ensures
        constraint_views(r@) == constraint_views(v@),
{
    let mut out: Vec<ShapeConstraint> = Vec::new();
    let mut i: usize = 0;
    while i < v.len()
        invariant
            i <= v@.len(),
            constraint_views(out@) == constraint_views(v@.take(i as int)),
        decreases v.len() - i,
    {
        let ghost before = out@;
        out.push(v[i].copy());
        proof {
            assert(v@.take(i + 1) =~= v@.take(i as int).push(v@[i as int]));
            assert(constraint_views(out@) =~= constraint_views(before).push(v@[i as int]@));
            assert(constraint_views(v@.take(i + 1)) =~= constraint_views(v@.take(i as int)).push(v@[i as int]@));
        }
        i = i + 1;
    }
    assert(v@.take(v@.len() as int) =~= v@);
    out
}

proof fn lemma_affine_fits(c: i64, v: u64, k: i64)
    ensures
        i128::MIN <= c * v <= i128::MAX,
        i128::MIN <= c * v + k <= i128::MAX,
{
    assert(-0x8000_0000_0000_0000 <= c <= 0x7fff_ffff_ffff_ffff);
    assert(0 <= v <= 0xffff_ffff_ffff_ffff);
    assert(-0x8000_0000_0000_0000 * 0xffff_ffff_ffff_ffff <= c * v <= 0x7fff_ffff_ffff_ffff * 0xffff_ffff_ffff_ffff) by (nonlinear_arith)
        requires
            -0x8000_0000_0000_0000 <= c <= 0x7fff_ffff_ffff_ffff,
            0 <= v <= 0xffff_ffff_ffff_ffff,
    ;
}

impl ConstraintFacts {
    /// Creates an empty fact set.
    pub fn new() -> (r: Self)
        ensures
            r@.parents == Map::<Seq<char>, Seq<char>>::empty(),
            r@.statics == Map::<Seq<char>, u64>::empty(),
            r@.nonneg == Set::<Seq<char>>::empty(),
            r@.facts == Seq::<ConstraintV>::empty(),
    {
        let r = ConstraintFacts { parent: IdMap::new(), static_bindings: IdMap::new(), non_negative: IdMap::new(), accepted: Vec::new() };
        proof {
            assert(r@.parents =~= Map::<Seq<char>, Seq<char>>::empty());
            assert(r@.nonneg =~= Set::<Seq<char>>::empty());
            assert(r@.facts =~= Seq::<ConstraintV>::empty());
        }
        r
    }

    /// Returns accepted facts in deterministic normalized insertion-independent order.
    pub fn accepted_facts(&self) -> (r: Vec<ShapeConstraint>)
        ensures
            constraint_views(r@) == self@.facts,
            constraints_sorted(self@.facts),
    {
        proof {
            use_type_invariant(self);
        }
        copy_constraints(&self.accepted)
    }

    /// The class representative of a declared symbol.
    fn root(&self, symbol: &str) -> (r: AgentResult<String>)
        ensures
            match root_of(self@, symbol@) {
                Some(x) => r matches Ok(s) && s@ == x,
                None => r matches Err(e) && e.code == ErrorCode::InvalidConstraint,
            },
    {
        match self.parent.get(symbol) {
            Some(p) => Ok(p.clone()),
            None => Err(constraint_error(ErrorCode::InvalidConstraint, "constraint references undeclared dimension")),
        }
    }

    fn normalize_dim(&self, dimension: &DimExpr) -> (r: AgentResult<NormalizedDim>)
        ensures
            match norm_dim(self@, dimension@) {
                Some(n) => r matches Ok(x) && x@ == n,
                None => r matches Err(e) && e.code == ErrorCode::InvalidConstraint,
            },
    {
        match dimension {
            DimExpr::Static(value) => Ok(NormalizedDim::Static(*value as i128)),
            DimExpr::Symbol(symbol) => {
                let root = self.root(symbol.as_str())?;
                match self.static_bindings.get(root.as_str()) {
                    Some(value) => Ok(NormalizedDim::Static(*value as i128)),
                    None => Ok(NormalizedDim::Affine { coefficient: 1, symbol: root, constant: 0 }),
                }
            },
            DimExpr::Affine { coefficient, symbol, constant } => {
                let root = self.root(symbol.as_str())?;
                match self.static_bindings.get(root.as_str()) {
                    Some(value) => {
                        proof {
                            lemma_affine_fits(*coefficient, *value, *constant);
                        }
                        Ok(NormalizedDim::Static((*coefficient as i128) * (*value as i128) + (*constant as i128)))
                    },
                    None => Ok(NormalizedDim::Affine { coefficient: *coefficient, symbol: root, constant: *constant }),
                }
            },
        }
    }

    fn normalize_shape(&self, shape: &Shape) -> (r: AgentResult<String>)
        ensures
            match norm_shape(self@, shape@) {
                Some(t) => r matches Ok(s) && s@ == t,
                None => r matches Err(e) && e.code == ErrorCode::InvalidConstraint,
            },
    {
        let ghost dims = shape@;
        let mut out = String::from_str("[");
        let mut i: usize = 0;
        proof {
            reveal_strlit("[");
            reveal_strlit("]");
            reveal_strlit(",");
            assert(dims.take(0) =~= Seq::<DimV>::empty());
        }
        while i < shape.0.len()
            invariant
                dims == shape@,
                i <= dims.len(),
                joined_dims(self@, dims.take(i as int)) matches Some(t) && out@ == "["@ + t,
            decreases shape.0.len() - i,
        {
            let n = match self.normalize_dim(&shape.0[i]) {
                Ok(n) => n,
                Err(e) => {
                    proof {
                        lemma_joined_prefix_fails(self@, dims, (i + 1) as nat);
                    }
                    return Err(e);
                },
            };
            let ghost before = out@;
            if i > 0 {
                out.append(",");
            }
            push_norm_text(&mut out, &n);
            proof {
                let t = dims.take(i + 1);
                assert(t.drop_last() =~= dims.take(i as int));
                assert(t.last() == dims[i as int]);
                assert(out@ =~= "["@ + joined_dims(self@, t)->Some_0);
            }
            i = i + 1;
        }
        out.append("]");
        proof {
            assert(dims.take(dims.len() as int) =~= dims);
        }
        Ok(out)
    }

    fn query_shapes_raw(&self, left: &Shape, right: &Shape) -> (r: AgentResult<RawQuery>)
        ensures
            match raw_query(self@, left@, right@) {
                Some(v) => r matches Ok(x) && x@ == v,
                None => r matches Err(e) && e.code == ErrorCode::InvalidConstraint,
            },
    {
        if left.0.len() != right.0.len() {
            let mut expected = String::from_str("rank ");
            push_decimal(&mut expected, left.0.len() as u64);
            let mut actual = String::from_str("rank ");
            push_decimal(&mut actual, right.0.len() as u64);
            return Ok(RawQuery::Contradiction { expected, actual });
        }
        let mut unknown = false;
        let mut i: usize = 0;
        while i < left.0.len()
            invariant
                left.0@.len() == right.0@.len(),
                i <= left.0@.len(),
                raw_query(self@, left@, right@) == raw_scan(self@, left@, right@, i as nat, unknown),
            decreases left.0.len() - i,
        {
            let a = self.normalize_dim(&left.0[i])?;
            let b = self.normalize_dim(&right.0[i])?;
            if !norm_same(&a, &b) {
                match (&a, &b) {
                    (NormalizedDim::Static(_), NormalizedDim::Static(_)) => {
                        let mut expected = String::new();
                        push_norm_text(&mut expected, &a);
                        let mut actual = String::new();
                        push_norm_text(&mut actual, &b);
                        return Ok(RawQuery::Contradiction { expected, actual });
                    },
                    (
                        NormalizedDim::Affine { coefficient: c1, symbol: s1, .. },
                        NormalizedDim::Affine { coefficient: c2, symbol: s2, .. },
                    ) => {
                        if str_eq(s1.as_str(), s2.as_str()) && *c1 == *c2 {
                            let mut expected = String::new();
                            push_norm_text(&mut expected, &a);
                            let mut actual = String::new();
                            push_norm_text(&mut actual, &b);
                            return Ok(RawQuery::Contradiction { expected, actual });
                        }
                        unknown = true;
                    },
                    _ => {
                        unknown = true;
                    },
                }
            }
            i = i + 1;
        }
        if unknown {
            Ok(RawQuery::Unknown)
        } else {
            Ok(RawQuery::Proved)
        }
    }

    fn proved(&self, left: &Shape, right: &Shape) -> (r: AgentResult<ConstraintQueryResult>)
        ensures
            match (norm_shape(self@, left@), norm_shape(self@, right@)) {
                (Some(a), Some(b)) => r matches Ok(q) && q@ == QueryV::Proved(a, b, self@.facts),
                _ => r matches Err(e) && e.code == ErrorCode::InvalidConstraint,
            },
    {
        let normalized_left = self.normalize_shape(left)?;
        let normalized_right = self.normalize_shape(right)?;
        Ok(ConstraintQueryResult::Proved {
            proof: ConstraintProof { normalized_left, normalized_right, facts: copy_constraints(&self.accepted) },
        })
    }

    /// Queries equality of complete shapes in dimension order.
    pub fn query_shapes(&self, left: &Shape, right: &Shape) -> (r: AgentResult<ConstraintQueryResult>)
        ensures
            match shape_query(self@, left@, right@) {
                Some(q) => r matches Ok(x) && x@ == q,
                None => r matches Err(e) && e.code == ErrorCode::InvalidConstraint,
            },
    {
        let constraint = ShapeConstraint::Equal { left: left.copy(), right: right.copy() };
        let reversed = ShapeConstraint::Equal { left: right.copy(), right: left.copy() };
        if sorted_contains(&self.accepted, &constraint) || sorted_contains(&self.accepted, &reversed) {
            return self.proved(left, right);
        }
        match self.query_shapes_raw(left, right)? {
            RawQuery::Proved => self.proved(left, right),
            RawQuery::Unknown => Ok(ConstraintQueryResult::Unknown),
            RawQuery::Contradiction { expected, actual } => Ok(ConstraintQueryResult::Contradiction {
                contradiction: ConstraintContradiction {
                    normalized_constraint: constraint,
                    conflicting_facts: copy_constraints(&self.accepted),
                    expected,
                    actual,
                },
            }),
        }
    }
}

proof fn lemma_joined_prefix_fails(f: FactsV, dims: Seq<DimV>, k: nat)
    requires
        0 < k <= dims.len(),
        norm_dim(f, dims[k - 1]) is None,
    ensures
        norm_shape(f, dims) is None,
    decreases dims.len() - k,
{
    if k == dims.len() {
        assert(dims.last() == dims[k - 1]);
    } else {
        lemma_joined_prefix_fails(f, dims.drop_last(), k);
        assert(dims.drop_last()[k - 1] == dims[k - 1]);
    }
}

// ---------------------------------------------------------------------------
// Updates.

/// Whether a character is an ASCII letter.
pub open spec fn ascii_alpha(c: char) -> bool {
    ('a' <= c && c <= 'z') || ('A' <= c && c <= 'Z')
}

/// Whether a character is an ASCII letter or digit.
pub open spec fn ascii_alnum(c: char) -> bool {
    ascii_alpha(c) || ('0' <= c && c <= '9')
}

/// A dimension symbol: a letter or `_`, then letters, digits and `_`.
pub open spec fn valid_symbol(s: Seq<char>) -> bool {
    &&& s.len() > 0
    &&& (ascii_alpha(s[0]) || s[0] == '_')
    &&& forall|i: int| 0 <= i < s.len() ==> ascii_alnum(#[trigger] s[i]) || s[i] == '_'
}

/// The facts after declaring `s`.
pub open spec fn declared(f: FactsV, s: Seq<char>, non_negative: bool) -> FactsV {
    FactsV {
        parents: f.parents.insert(s, s),
        statics: f.statics,
        nonneg: if non_negative { f.nonneg.insert(s) } else { f.nonneg },
        facts: f.facts,
    }
}

/// The facts after merging the classes of `a` and `b`: the smaller
/// representative absorbs the other, its non-negativity and its static value;
/// two different static values contradict.
pub open spec fn union_spec(f: FactsV, a: Seq<char>, b: Seq<char>) -> Result<FactsV, ErrorCode> {
    let ra = f.parents[a];
    let rb = f.parents[b];
    if ra == rb {
        Ok(f)
    } else {
        let rep = if seq_less(ra, rb) { ra } else { rb };
        let repl = if seq_less(ra, rb) { rb } else { ra };
        let parents = f.parents.map_values(|v: Seq<char>| if v == repl { rep } else { v });
        let nonneg = if f.nonneg.contains(repl) { f.nonneg.remove(repl).insert(rep) } else { f.nonneg };
        let base = f.statics.remove(rep).remove(repl);
        if f.statics.contains_key(rep) && f.statics.contains_key(repl) && f.statics[rep] != f.statics[repl] {
            Err(ErrorCode::ConstraintContradiction)
        } else {
            let statics = if f.statics.contains_key(rep) {
                base.insert(rep, f.statics[rep])
            } else if f.statics.contains_key(repl) {
                base.insert(rep, f.statics[repl])
            } else {
                base
            };
            Ok(FactsV { parents, statics, nonneg, facts: f.facts })
        }
    }
}

/// The facts after binding the class of `s` to `v`; a different existing value contradicts.
pub open spec fn bind_spec(f: FactsV, s: Seq<char>, v: u64) -> Result<FactsV, ErrorCode> {
    let r = f.parents[s];
    if f.statics.contains_key(r) {
        if f.statics[r] != v {
            Err(ErrorCode::ConstraintContradiction)
        } else {
            Ok(f)
        }
    } else {
        Ok(FactsV { statics: f.statics.insert(r, v), ..f })
    }
}

/// The facts after equating one dimension pair: symbols merge, a symbol and a
/// static value bind; other pairs add nothing.
pub open spec fn equate_spec(f: FactsV, l: DimV, r: DimV) -> Result<FactsV, ErrorCode> {
    match (l, r) {
        (DimV::Symbol(a), DimV::Symbol(b)) => union_spec(f, a, b),
        (DimV::Symbol(a), DimV::Static(v)) => bind_spec(f, a, v),
        (DimV::Static(v), DimV::Symbol(a)) => bind_spec(f, a, v),
        _ => Ok(f),
    }
}

/// Equates the dimension pairs from position `k` on.
pub open spec fn equate_all(f: FactsV, l: Seq<DimV>, r: Seq<DimV>, k: nat) -> Result<FactsV, ErrorCode>
    decreases l.len() - k,
{
    if k >= l.len() {
        Ok(f)
    } else {
        match equate_spec(f, l[k as int], r[k as int]) {
            Err(c) => Err(c),
            Ok(g) => equate_all(g, l, r, k + 1),
        }
    }
}

/// The symbol a dimension names, if any.
pub open spec fn dim_symbol(d: DimV) -> Option<Seq<char>> {
    match d {
        DimV::Static(_) => None,
        DimV::Symbol(s) => Some(s),
        DimV::Affine(_, s, _) => Some(s),
    }
}

/// Every symbol of the dimensions is declared.
pub open spec fn dims_declared(f: FactsV, dims: Seq<DimV>) -> bool {
    forall|i: int| 0 <= i < dims.len() ==> (dim_symbol(#[trigger] dims[i]) matches Some(s) ==> f.parents.contains_key(s))
}

/// Every symbol of the constraint is declared.
pub open spec fn constraint_declared(f: FactsV, c: ConstraintV) -> bool {
    match c {
        ConstraintV::Equal(l, r) => dims_declared(f, l) && dims_declared(f, r),
        ConstraintV::NonNegative(s) => f.parents.contains_key(s),
    }
}

/// Re-checks the accepted equalities from position `k` on.
pub open spec fn recheck(g: FactsV, k: nat) -> Option<ErrorCode>
    decreases g.facts.len() - k,
{
    if k >= g.facts.len() {
        None
    } else {
        match g.facts[k as int] {
            ConstraintV::Equal(l, r) => match raw_query(g, l, r) {
                None => Some(ErrorCode::InvalidConstraint),
                Some(RawV::Contradiction(_, _)) => Some(ErrorCode::ConstraintContradiction),
                _ => recheck(g, k + 1),
            },
            ConstraintV::NonNegative(_) => recheck(g, k + 1),
        }
    }
}

/// The answer for a constraint already known to hold under `f`.
pub open spec fn answer(f: FactsV, c: ConstraintV) -> Result<(FactsV, QueryV), ErrorCode> {
    match c {
        ConstraintV::Equal(l, r) => match shape_query(f, l, r) {
            Some(q) => Ok((f, q)),
            None => Err(ErrorCode::InvalidConstraint),
        },
        ConstraintV::NonNegative(_) => Ok((f, QueryV::Proved("non_negative"@, "non_negative"@, f.facts))),
    }
}

/// The outcome of inserting `c`: the new facts and the answer, or the error.
pub open spec fn insert_outcome(f: FactsV, c: ConstraintV) -> Result<(FactsV, QueryV), ErrorCode> {
    if !constraint_declared(f, c) {
        Err(ErrorCode::InvalidConstraint)
    } else if f.facts.contains(c) {
        answer(f, c)
    } else {
        let staged: Result<FactsV, ErrorCode> = match c {
            ConstraintV::Equal(l, r) => if l.len() != r.len() {
                Err(ErrorCode::ConstraintContradiction)
            } else {
                match raw_query(f, l, r) {
                    None => Err(ErrorCode::InvalidConstraint),
                    Some(RawV::Contradiction(_, _)) => Err(ErrorCode::ConstraintContradiction),
                    _ => equate_all(f, l, r, 0),
                }
            },
            ConstraintV::NonNegative(s) => Ok(FactsV { nonneg: f.nonneg.insert(f.parents[s]), ..f }),
        };
        match staged {
            Err(e) => Err(e),
            Ok(g0) => {
                let g = FactsV { facts: sorted_insert(g0.facts, c), ..g0 };
                match recheck(g, 0) {
                    Some(e) => Err(e),
                    None => answer(g, c),
                }
            },
        }
    }
}

/// The three mutable tables of a fact set under construction.
struct Tables {
    parent: IdMap<String>,
    statics: IdMap<u64>,
    nonneg: IdMap<()>,
}

spec fn tables_model(t: Tables, facts: Seq<ConstraintV>) -> FactsV {
    FactsV { parents: t.parent@.map_values(|s: String| s@), statics: t.statics@, nonneg: t.nonneg@.dom(), facts }
}

fn union_tables(t: Tables, a: &str, b: &str, Ghost(facts): Ghost<Seq<ConstraintV>>) -> (r: AgentResult<Tables>)
    requires
        flat(tables_model(t, facts).parents),
        t.parent@.contains_key(a@),
        t.parent@.contains_key(b@),
    ensures
        match union_spec(tables_model(t, facts), a@, b@) {
            Ok(g) => r matches Ok(u) && tables_model(u, facts) == g && flat(g.parents),
            Err(c) => r matches Err(e) && e.code == c,
        },
{
    let ghost f = tables_model(t, facts);
    let ra = match t.parent.get(a) {
        Some(x) => x.clone(),
        None => {
            return Err(constraint_error(ErrorCode::InvalidConstraint, "constraint references undeclared dimension"));
        },
    };
    let rb = match t.parent.get(b) {
        Some(x) => x.clone(),
        None => {
            return Err(constraint_error(ErrorCode::InvalidConstraint, "constraint references undeclared dimension"));
        },
    };
    if str_eq(ra.as_str(), rb.as_str()) {
        return Ok(t);
    }
    let less = str_less(ra.as_str(), rb.as_str());
    let (rep, repl) = if less { (ra, rb) } else { (rb, ra) };
    let parent = t.parent.replace_values(repl.as_str(), rep.as_str());
    let mut nonneg = t.nonneg;
    if nonneg.contains_key(repl.as_str()) {
        let _ = nonneg.remove(repl.as_str());
        nonneg.insert(rep.clone(), ());
    }
    let mut statics = t.statics;
    let sr = statics.remove(rep.as_str());
    let sp = statics.remove(repl.as_str());
    let ghost parents2 = f.parents.map_values(|v: Seq<char>| if v == repl@ { rep@ } else { v });
    proof {
        assert(parent@.map_values(|s: String| s@) =~= parents2);
        assert(f.parents.contains_key(a@));
        assert(f.parents.contains_key(b@));
        assert(f.parents[a@] == ra@);
        assert(f.parents[b@] == rb@);
        assert(f.parents.contains_key(rep@) && f.parents[rep@] == rep@);
        assert(f.parents.contains_key(repl@) && f.parents[repl@] == repl@);
        assert forall|k: Seq<char>| #[trigger] parents2.contains_key(k) implies parents2.contains_key(parents2[k]) && parents2[parents2[k]] == parents2[k] by {
            assert(f.parents.contains_key(f.parents[k]));
        }
    }
    let result = match (sr, sp) {
        (Some(x), Some(y)) => {
            if x != y {
                return Err(constraint_error(ErrorCode::ConstraintContradiction, "constraint contradicts accepted shape facts"));
            }
            statics.insert(rep.clone(), x);
            Tables { parent, statics, nonneg }
        },
        (Some(v), None) => {
            statics.insert(rep.clone(), v);
            Tables { parent, statics, nonneg }
        },
        (None, Some(v)) => {
            statics.insert(rep.clone(), v);
            Tables { parent, statics, nonneg }
        },
        (None, None) => Tables { parent, statics, nonneg },
    };
    proof {
        let g = union_spec(f, a@, b@)->Ok_0;
        assert(tables_model(result, facts).nonneg =~= g.nonneg);
        assert(tables_model(result, facts).statics =~= g.statics);
        assert(tables_model(result, facts).parents =~= g.parents);
    }
    Ok(result)
}

fn bind_tables(t: Tables, s: &str, v: u64, Ghost(facts): Ghost<Seq<ConstraintV>>) -> (r: AgentResult<Tables>)
    requires
        flat(tables_model(t, facts).parents),
        t.parent@.contains_key(s@),
    ensures
        match bind_spec(tables_model(t, facts), s@, v) {
            Ok(g) => r matches Ok(u) && tables_model(u, facts) == g && flat(g.parents),
            Err(c) => r matches Err(e) && e.code == c,
        },
{
    let root = match t.parent.get(s) {
        Some(x) => x.clone(),
        None => {
            return Err(constraint_error(ErrorCode::InvalidConstraint, "constraint references undeclared dimension"));
        },
    };
    match t.statics.get(root.as_str()) {
        Some(existing) => {
            if *existing != v {
                return Err(constraint_error(ErrorCode::ConstraintContradiction, "constraint contradicts accepted shape facts"));
            }
            Ok(t)
        },
        None => {
            let mut statics = t.statics;
            statics.insert(root, v);
            let u = Tables { parent: t.parent, statics, nonneg: t.nonneg };
            proof {
                assert(tables_model(u, facts).statics =~= bind_spec(tables_model(t, facts), s@, v)->Ok_0.statics);
            }
            Ok(u)
        },
    }
}

fn symbol_declared(t: &Tables, d: &DimExpr) -> (r: bool)
    ensures
        r == (dim_symbol(d@) matches Some(s) ==> t.parent@.contains_key(s)),
{
    match d {
        DimExpr::Static(_) => true,
        DimExpr::Symbol(s) => t.parent.contains_key(s.as_str()),
        DimExpr::Affine { symbol, .. } => t.parent.contains_key(symbol.as_str()),
    }
}

fn equate_tables(t0: Tables, left: &Shape, right: &Shape, Ghost(facts): Ghost<Seq<ConstraintV>>) -> (r: AgentResult<Tables>)
    requires
        flat(tables_model(t0, facts).parents),
        left@.len() == right@.len(),
        dims_declared(tables_model(t0, facts), left@),
        dims_declared(tables_model(t0, facts), right@),
    ensures
        match equate_all(tables_model(t0, facts), left@, right@, 0) {
            Ok(g) => r matches Ok(u) && tables_model(u, facts) == g && flat(g.parents),
            Err(c) => r matches Err(e) && e.code == c,
        },
{
    let ghost f0 = tables_model(t0, facts);
    let mut t = t0;
    let mut i: usize = 0;
    while i < left.0.len()
        invariant
            left@.len() == right@.len(),
            f0 == tables_model(t0, facts),
            i <= left@.len(),
            flat(tables_model(t, facts).parents),
            tables_model(t, facts).parents.dom() == f0.parents.dom(),
            dims_declared(f0, left@),
            dims_declared(f0, right@),
            equate_all(f0, left@, right@, 0) == equate_all(tables_model(t, facts), left@, right@, i as nat),
        decreases left.0.len() - i,
    {
        let ghost before = tables_model(t, facts);
        assert(dim_symbol(left@[i as int]) matches Some(s) ==> f0.parents.contains_key(s));
        assert(dim_symbol(right@[i as int]) matches Some(s) ==> f0.parents.contains_key(s));
        assert(left@[i as int] == left.0@[i as int]@);
        assert(right@[i as int] == right.0@[i as int]@);
        let step = match (&left.0[i], &right.0[i]) {
            (DimExpr::Symbol(a), DimExpr::Symbol(b)) => union_tables(t, a.as_str(), b.as_str(), Ghost(facts)),
            (DimExpr::Symbol(a), DimExpr::Static(v)) => bind_tables(t, a.as_str(), *v, Ghost(facts)),
            (DimExpr::Static(v), DimExpr::Symbol(a)) => bind_tables(t, a.as_str(), *v, Ghost(facts)),
            _ => Ok(t),
        };
        assert(match equate_spec(before, left@[i as int], right@[i as int]) {
            Ok(g) => step matches Ok(u) && tables_model(u, facts) == g && flat(g.parents),
            Err(c) => step matches Err(e) && e.code == c,
        });
        t = match step {
            Ok(u) => u,
            Err(e) => {
                proof {
                    assert(equate_all(before, left@, right@, i as nat) == Err::<FactsV, ErrorCode>(e.code));
                }
                return Err(e);
            },
        };
        proof {
            assert(tables_model(t, facts).parents.dom() =~= before.parents.dom());
        }
        i = i + 1;
    }
    Ok(t)
}

fn is_ascii_alpha(c: char) -> (r: bool)
    ensures
        r == ascii_alpha(c),
{
    ('a' <= c && c <= 'z') || ('A' <= c && c <= 'Z')
}

fn symbol_valid(s: &str) -> (r: bool)
    ensures
        r == valid_symbol(s@),
{
    let n = s.unicode_len();
    if n == 0 {
        return false;
    }
    let first = s.get_char(0);
    if !(is_ascii_alpha(first) || first == '_') {
        return false;
    }
    let mut i: usize = 0;
    while i < n
        invariant
            n == s@.len(),
            i <= n,
            forall|j: int| 0 <= j < i ==> ascii_alnum(#[trigger] s@[j]) || s@[j] == '_',
        decreases n - i,
    {
        let c = s.get_char(i);
        if !(is_ascii_alpha(c) || ('0' <= c && c <= '9') || c == '_') {
            return false;
        }
        i = i + 1;
    }
    true
}

impl ConstraintFacts {
    /// Declares one symbol before it can appear in a fact.
    pub fn declare_symbol(&mut self, symbol: &str, non_negative: bool) -> (r: AgentResult<()>)
        ensures
            (valid_symbol(symbol@) && !old(self)@.parents.contains_key(symbol@)) ==> (r is Ok && final(self)@ == declared(old(self)@, symbol@, non_negative)),
            !(valid_symbol(symbol@) && !old(self)@.parents.contains_key(symbol@)) ==> (r matches Err(e) && e.code == ErrorCode::InvalidConstraint && final(self)@ == old(self)@),
    {
        proof {
            use_type_invariant(&*self);
        }
        if !symbol_valid(symbol) {
            return Err(constraint_error(ErrorCode::InvalidConstraint, "invalid dimension symbol"));
        }
        if self.parent.contains_key(symbol) {
            return Err(constraint_error(ErrorCode::InvalidConstraint, "dimension symbol is already declared"));
        }
        let ghost f = self@;
        let mut parent = self.parent.replace_values("", "");
        parent.insert(String::from_str(symbol), String::from_str(symbol));
        let mut nonneg = self.non_negative.copy();
        if non_negative {
            nonneg.insert(String::from_str(symbol), ());
        }
        let statics = self.static_bindings.copy();
        let accepted = copy_constraints(&self.accepted);
        proof {
            let np = parent@.map_values(|s: String| s@);
            assert(np =~= f.parents.insert(symbol@, symbol@));
            assert forall|k: Seq<char>| #[trigger] np.contains_key(k) implies np.contains_key(np[k]) && np[np[k]] == np[k] by {
                if k != symbol@ {
                    assert(f.parents.contains_key(f.parents[k]));
                }
            }
            assert(nonneg@.dom() =~= (if non_negative { f.nonneg.insert(symbol@) } else { f.nonneg }));
        }
        *self = ConstraintFacts { parent, static_bindings: statics, non_negative: nonneg, accepted };
        Ok(())
    }

    fn constraint_symbols_declared(&self, c: &ShapeConstraint) -> (r: bool)
        ensures
            r == constraint_declared(self@, c@),
    {
        match c {
            ShapeConstraint::Equal { left, right } => self.shape_declared(left) && self.shape_declared(right),
            ShapeConstraint::NonNegative { symbol } => self.parent.contains_key(symbol.as_str()),
        }
    }

    fn shape_declared(&self, shape: &Shape) -> (r: bool)
        ensures
            r == dims_declared(self@, shape@),
    {
        let mut i: usize = 0;
        while i < shape.0.len()
            invariant
                i <= shape@.len(),
                forall|j: int| 0 <= j < i ==> (dim_symbol(#[trigger] shape@[j]) matches Some(s) ==> self@.parents.contains_key(s)),
            decreases shape.0.len() - i,
        {
            let ok = match &shape.0[i] {
                DimExpr::Static(_) => true,
                DimExpr::Symbol(s) => self.parent.contains_key(s.as_str()),
                DimExpr::Affine { symbol, .. } => self.parent.contains_key(symbol.as_str()),
            };
            assert(shape@[i as int] == shape.0@[i as int]@);
            if !ok {
                return false;
            }
            i = i + 1;
        }
        true
    }

    fn answer(&self, c: &ShapeConstraint) -> (r: AgentResult<ConstraintQueryResult>)
        ensures
            match answer(self@, c@) {
                Ok((_, q)) => r matches Ok(x) && x@ == q,
                Err(code) => r matches Err(e) && e.code == code,
            },
    {
        match c {
            ShapeConstraint::Equal { left, right } => self.query_shapes(left, right),
            ShapeConstraint::NonNegative { .. } => Ok(ConstraintQueryResult::Proved {
                proof: ConstraintProof {
                    normalized_left: String::from_str("non_negative"),
                    normalized_right: String::from_str("non_negative"),
                    facts: copy_constraints(&self.accepted),
                },
            }),
        }
    }

    fn recheck(&self) -> (r: AgentResult<()>)
        ensures
            match recheck(self@, 0) {
                None => r is Ok,
                Some(code) => r matches Err(e) && e.code == code,
            },
    {
        let mut k: usize = 0;
        while k < self.accepted.len()
            invariant
                k <= self@.facts.len(),
                self@.facts == constraint_views(self.accepted@),
                recheck(self@, 0) == recheck(self@, k as nat),
            decreases self.accepted.len() - k,
        {
            match &self.accepted[k] {
                ShapeConstraint::Equal { left, right } => {
                    match self.query_shapes_raw(left, right)? {
                        RawQuery::Contradiction { .. } => {
                            return Err(constraint_error(ErrorCode::ConstraintContradiction, "constraint contradicts accepted shape facts"));
                        },
                        _ => {},
                    }
                },
                ShapeConstraint::NonNegative { .. } => {},
            }
            k = k + 1;
        }
        Ok(())
    }

    /// Validates and inserts one fact atomically. Duplicate facts are no-ops.
    #[verifier::rlimit(30)]
    pub fn insert(&mut self, constraint: &ShapeConstraint) -> (r: AgentResult<ConstraintQueryResult>)
        ensures
            match insert_outcome(old(self)@, constraint@) {
                Ok((g, q)) => (r matches Ok(x) && x@ == q) && final(self)@ == g,
                Err(code) => (r matches Err(e) && e.code == code) && final(self)@ == old(self)@,
            },
    {
        proof {
            use_type_invariant(&*self);
        }
        if !self.constraint_symbols_declared(constraint) {
            return Err(constraint_error(ErrorCode::InvalidConstraint, "constraint references undeclared dimensions"));
        }
        if sorted_contains(&self.accepted, constraint) {
            return self.answer(constraint);
        }
        let ghost f = self@;
        let mut t = Tables {
            parent: self.parent.replace_values("", ""),
            statics: self.static_bindings.copy(),
            nonneg: self.non_negative.copy(),
        };
        proof {
            assert(tables_model(t, f.facts).parents =~= f.parents);
            assert(tables_model(t, f.facts) == f);
        }
        match constraint {
            ShapeConstraint::Equal { left, right } => {
                if left.0.len() != right.0.len() {
                    return Err(constraint_error(ErrorCode::ConstraintContradiction, "constraint contradicts accepted shape facts"));
                }
                match self.query_shapes_raw(left, right)? {
                    RawQuery::Contradiction { .. } => {
                        return Err(constraint_error(ErrorCode::ConstraintContradiction, "constraint contradicts accepted shape facts"));
                    },
                    _ => {},
                }
                t = equate_tables(t, left, right, Ghost(f.facts))?;
            },
            ShapeConstraint::NonNegative { symbol } => {
                let root = self.root(symbol.as_str())?;
                t.nonneg.insert(root, ());
                proof {
                    assert(tables_model(t, f.facts).nonneg =~= f.nonneg.insert(f.parents[symbol@]));
                }
            },
        }
        let mut accepted = copy_constraints(&self.accepted);
        insert_sorted_constraint(&mut accepted, constraint.copy());
        let staged = ConstraintFacts { parent: t.parent, static_bindings: t.statics, non_negative: t.nonneg, accepted };
        staged.recheck()?;
        let result = staged.answer(constraint)?;
        *self = staged;
        Ok(result)
    }
}

// ---------------------------------------------------------------------------
// Laws.

/// The accepted facts do not depend on the order in which two constraints
/// were added: adding `a` then `b` yields the same canonical sequence as
/// adding `b` then `a`.
pub proof fn law_accepted_order_insertion_independent(s: Seq<ConstraintV>, a: ConstraintV, b: ConstraintV)
    requires
        constraints_sorted(s),
    ensures
        sorted_insert(sorted_insert(s, a), b) == sorted_insert(sorted_insert(s, b), a),
{
    lemma_sorted_insert(s, a);
    lemma_sorted_insert(s, b);
    lemma_sorted_insert(sorted_insert(s, a), b);
    lemma_sorted_insert(sorted_insert(s, b), a);
    assert(s.to_set().insert(a).insert(b) =~= s.to_set().insert(b).insert(a));
    lemma_sorted_unique(sorted_insert(sorted_insert(s, a), b), sorted_insert(sorted_insert(s, b), a));
}

/// Inserting a constraint that is already accepted changes no fact.
pub proof fn law_duplicate_insert_is_noop(f: FactsV, c: ConstraintV)
    requires
        f.facts.contains(c),
    ensures
        insert_outcome(f, c) matches Ok((g, _)) ==> g == f,
{
}

/// After a successful insertion the constraint is among the accepted facts,
/// and the accepted facts stay in canonical order.
pub proof fn law_insert_accepts(f: FactsV, c: ConstraintV)
    requires
        constraints_sorted(f.facts),
    ensures
        insert_outcome(f, c) matches Ok((g, _)) ==> g.facts.contains(c) && constraints_sorted(g.facts),
{
    lemma_sorted_insert(f.facts, c);
    let g0: Result<FactsV, ErrorCode> = match c {
        ConstraintV::Equal(l, r) => if l.len() != r.len() {
            Err(ErrorCode::ConstraintContradiction)
        } else {
            match raw_query(f, l, r) {
                None => Err(ErrorCode::InvalidConstraint),
                Some(RawV::Contradiction(_, _)) => Err(ErrorCode::ConstraintContradiction),
                _ => equate_all(f, l, r, 0),
            }
        },
        ConstraintV::NonNegative(s) => Ok(FactsV { nonneg: f.nonneg.insert(f.parents[s]), ..f }),
    };
    if let Ok(g0) = g0 {
        lemma_equate_keeps_facts(f, c);
        assert(sorted_insert(f.facts, c).to_set().contains(c));
    }
}

proof fn lemma_equate_all_facts(f: FactsV, l: Seq<DimV>, r: Seq<DimV>, k: nat)
    ensures
        equate_all(f, l, r, k) matches Ok(g) ==> g.facts == f.facts,
    decreases l.len() - k,
{
    if k < l.len() {
        if let Ok(g) = equate_spec(f, l[k as int], r[k as int]) {
            lemma_equate_all_facts(g, l, r, k + 1);
        }
    }
}

proof fn lemma_equate_keeps_facts(f: FactsV, c: ConstraintV)
    ensures
        c matches ConstraintV::Equal(l, r) ==> (equate_all(f, l, r, 0) matches Ok(g) ==> g.facts == f.facts),
{
    if let ConstraintV::Equal(l, r) = c {
        lemma_equate_all_facts(f, l, r, 0);
    }
}

proof fn lemma_equate_all_declarations(f: FactsV, l: Seq<DimV>, r: Seq<DimV>, k: nat)
    ensures
        equate_all(f, l, r, k) matches Ok(g) ==> g.parents.dom() == f.parents.dom(),
    decreases l.len() - k,
{
    if k < l.len() {
        if let Ok(g) = equate_spec(f, l[k as int], r[k as int]) {
            match (l[k as int], r[k as int]) {
                (DimV::Symbol(a), DimV::Symbol(b)) => {
                    let ra = f.parents[a];
                    let rb = f.parents[b];
                    if ra != rb {
                        let rep = if seq_less(ra, rb) { ra } else { rb };
                        let repl = if seq_less(ra, rb) { rb } else { ra };
                        assert(f.parents.map_values(|v: Seq<char>| if v == repl { rep } else { v }).dom() =~= f.parents.dom());
                    }
                },
                _ => {},
            }
            lemma_equate_all_declarations(g, l, r, k + 1);
        }
    }
}

/// What a successful insertion changes: no declaration, and the accepted
/// facts become the canonical sequence of the old ones and the new one.
proof fn lemma_insert_outcome(f: FactsV, c: ConstraintV)
    requires
        constraints_sorted(f.facts),
    ensures
        insert_outcome(f, c) matches Ok((g, q)) ==> {
            &&& g.parents.dom() == f.parents.dom()
            &&& constraints_sorted(g.facts)
            &&& g.facts.to_set() == f.facts.to_set().insert(c)
            &&& answer(g, c) == Ok::<(FactsV, QueryV), ErrorCode>((g, q))
        },
{
    if f.facts.contains(c) {
        assert(f.facts.to_set().insert(c) =~= f.facts.to_set());
    } else {
        law_insert_accepts(f, c);
        lemma_sorted_insert(f.facts, c);
        lemma_equate_keeps_facts(f, c);
        if let ConstraintV::Equal(l, r) = c {
            lemma_equate_all_declarations(f, l, r, 0);
        }
    }
}

/// Inserting a constraint again right after it was accepted changes nothing
/// and gives the same answer; an insertion keeps every declared symbol
/// declared.
pub proof fn law_repeated_insert_is_noop(f: FactsV, c: ConstraintV)
    requires
        constraints_sorted(f.facts),
    ensures
        insert_outcome(f, c) matches Ok((g, q)) ==> g.parents.dom() == f.parents.dom() && insert_outcome(g, c) == Ok::<
            (FactsV, QueryV),
            ErrorCode,
        >((g, q)),
{
    lemma_insert_outcome(f, c);
    if let Ok((g, q)) = insert_outcome(f, c) {
        law_insert_accepts(f, c);
        assert(constraint_declared(g, c)) by {
            if let ConstraintV::Equal(l, r) = c {
                assert(dims_declared(f, l) && dims_declared(f, r));
            }
        }
    }
}

/// The facts after inserting the constraints of `cs` in order.
pub open spec fn insert_all(f: FactsV, cs: Seq<ConstraintV>) -> Result<FactsV, ErrorCode>
    decreases cs.len(),
{
    if cs.len() == 0 {
        Ok(f)
    } else {
        match insert_all(f, cs.drop_last()) {
            Err(e) => Err(e),
            Ok(g) => match insert_outcome(g, cs.last()) {
                Err(e) => Err(e),
                Ok((h, _)) => Ok(h),
            },
        }
    }
}

proof fn lemma_insert_all(f: FactsV, cs: Seq<ConstraintV>)
    requires
        constraints_sorted(f.facts),
    ensures
        insert_all(f, cs) matches Ok(g) ==> constraints_sorted(g.facts) && g.facts.to_set() == f.facts.to_set() + cs.to_set(),
    decreases cs.len(),
{
    if cs.len() > 0 {
        lemma_insert_all(f, cs.drop_last());
        if let Ok(g) = insert_all(f, cs.drop_last()) {
            lemma_insert_outcome(g, cs.last());
            assert(cs.to_set() =~= cs.drop_last().to_set().insert(cs.last())) by {
                assert forall|x: ConstraintV| cs.to_set().contains(x) implies cs.drop_last().to_set().insert(cs.last()).contains(x) by {
                    let i = choose|i: int| 0 <= i < cs.len() && cs[i] == x;
                    if i < cs.len() - 1 {
                        assert(cs.drop_last()[i] == x);
                    }
                }
                assert forall|x: ConstraintV| cs.drop_last().to_set().insert(cs.last()).contains(x) implies cs.to_set().contains(x) by {
                    if x != cs.last() {
                        let i = choose|i: int| 0 <= i < cs.drop_last().len() && cs.drop_last()[i] == x;
                        assert(cs[i] == x);
                    } else {
                        assert(cs[cs.len() - 1] == x);
                    }
                }
            }
            if let Ok((h, _)) = insert_outcome(g, cs.last()) {
                assert(h.facts.to_set() =~= f.facts.to_set() + cs.to_set());
            }
        }
    }
}

/// The accepted facts do not depend on insertion order: inserting the same
/// constraints in any two orders, both successfully, from the same facts
/// gives the same canonical accepted sequence.
pub proof fn law_accepted_facts_ignore_insertion_order(f: FactsV, cs1: Seq<ConstraintV>, cs2: Seq<ConstraintV>)
    requires
        constraints_sorted(f.facts),
        cs1.to_set() == cs2.to_set(),
        insert_all(f, cs1) is Ok,
        insert_all(f, cs2) is Ok,
    ensures
        insert_all(f, cs1)->Ok_0.facts == insert_all(f, cs2)->Ok_0.facts,
{
    lemma_insert_all(f, cs1);
    lemma_insert_all(f, cs2);
    lemma_sorted_unique(insert_all(f, cs1)->Ok_0.facts, insert_all(f, cs2)->Ok_0.facts);
}

/// A successful insertion of a shape equality answers that it is proved, and
/// the same query afterwards gives the same proof.
pub proof fn law_inserted_equality_is_proved(f: FactsV, l: Seq<DimV>, r: Seq<DimV>)
    requires
        constraints_sorted(f.facts),
    ensures
        insert_outcome(f, ConstraintV::Equal(l, r)) matches Ok((g, q)) ==> q is Proved && shape_query(g, l, r) == Some(q),
{
    law_insert_accepts(f, ConstraintV::Equal(l, r));
}

/// Whether two normalized dimensions differ whatever value their symbol
/// takes: two different constants, or the same multiple of the same symbol
/// with different offsets.
pub open spec fn provably_differ(a: NormV, b: NormV) -> bool {
    match (a, b) {
        (NormV::Static(x), NormV::Static(y)) => x != y,
        (NormV::Affine(c1, s1, k1), NormV::Affine(c2, s2, k2)) => s1 == s2 && c1 == c2 && k1 != k2,
        _ => false,
    }
}

proof fn lemma_scan_proved(f: FactsV, l: Seq<DimV>, r: Seq<DimV>, k: nat, unknown: bool)
    requires
        l.len() == r.len(),
        raw_scan(f, l, r, k, unknown) == Some(RawV::Proved),
    ensures
        !unknown,
        forall|i: int| k <= i < l.len() ==> norm_dim(f, l[i]) is Some && #[trigger] norm_dim(f, l[i]) == norm_dim(f, r[i]),
    decreases l.len() - k,
{
    if k < l.len() {
        let a = norm_dim(f, l[k as int]);
        let b = norm_dim(f, r[k as int]);
        if a is Some && b is Some {
            if a == b {
                lemma_scan_proved(f, l, r, k + 1, unknown);
            } else if raw_scan(f, l, r, k + 1, true) == Some(RawV::Proved) {
                lemma_scan_proved(f, l, r, k + 1, true);
            }
        }
    }
}

proof fn lemma_scan_contradicts(f: FactsV, l: Seq<DimV>, r: Seq<DimV>, k: nat, unknown: bool, i: int, a: NormV, b: NormV)
    requires
        l.len() == r.len(),
        k <= i < l.len(),
        forall|j: int| 0 <= j < l.len() ==> (#[trigger] norm_dim(f, l[j])) is Some && norm_dim(f, r[j]) is Some,
        norm_dim(f, l[i]) == Some(a),
        norm_dim(f, r[i]) == Some(b),
        provably_differ(a, b),
    ensures
        raw_scan(f, l, r, k, unknown) matches Some(RawV::Contradiction(_, _)),
    decreases l.len() - k,
{
    let x = norm_dim(f, l[k as int]);
    let y = norm_dim(f, r[k as int]);
    assert(x is Some && y is Some);
    if x == y {
        assert(k != i);
        lemma_scan_contradicts(f, l, r, k + 1, unknown, i, a, b);
    } else if k < i {
        lemma_scan_contradicts(f, l, r, k + 1, true, i, a, b);
    }
}

proof fn lemma_scan_contradiction_witness(f: FactsV, l: Seq<DimV>, r: Seq<DimV>, k: nat, unknown: bool, e: Seq<char>, t: Seq<char>)
    requires
        l.len() == r.len(),
        raw_scan(f, l, r, k, unknown) == Some(RawV::Contradiction(e, t)),
    ensures
        exists|i: int|
            k <= i < l.len() && (#[trigger] norm_dim(f, l[i])) is Some && norm_dim(f, r[i]) is Some && provably_differ(
                norm_dim(f, l[i])->0,
                norm_dim(f, r[i])->0,
            ) && e == norm_text(norm_dim(f, l[i])->0) && t == norm_text(norm_dim(f, r[i])->0),
    decreases l.len() - k,
{
    let x = norm_dim(f, l[k as int]);
    let y = norm_dim(f, r[k as int]);
    if x is Some && y is Some {
        let a = x->0;
        let b = y->0;
        if a == b {
            lemma_scan_contradiction_witness(f, l, r, k + 1, unknown, e, t);
        } else if provably_differ(a, b) {
            assert(norm_dim(f, l[k as int]) == Some(a));
        } else {
            lemma_scan_contradiction_witness(f, l, r, k + 1, true, e, t);
        }
    }
}

/// A shape-equality question decided from the dimensions alone is answered
/// "proved" only when both shapes have the same rank and every pair of
/// dimensions normalizes to the same value under the facts: offsets,
/// coefficients and symbols all agree.
pub proof fn law_raw_proof_needs_equal_dimensions(f: FactsV, l: Seq<DimV>, r: Seq<DimV>)
    requires
        raw_query(f, l, r) == Some(RawV::Proved),
    ensures
        l.len() == r.len(),
        forall|i: int| 0 <= i < l.len() ==> norm_dim(f, l[i]) is Some && #[trigger] norm_dim(f, l[i]) == norm_dim(f, r[i]),
{
    lemma_scan_proved(f, l, r, 0, false);
}

/// A shape query that no accepted fact answers is proved only when every
/// pair of dimensions normalizes to the same value.
pub proof fn law_query_proof_needs_equal_dimensions(f: FactsV, l: Seq<DimV>, r: Seq<DimV>)
    requires
        !f.facts.contains(ConstraintV::Equal(l, r)),
        !f.facts.contains(ConstraintV::Equal(r, l)),
        shape_query(f, l, r) matches Some(QueryV::Proved(_, _, _)),
    ensures
        l.len() == r.len(),
        forall|i: int| 0 <= i < l.len() ==> norm_dim(f, l[i]) is Some && #[trigger] norm_dim(f, l[i]) == norm_dim(f, r[i]),
{
    lemma_scan_proved(f, l, r, 0, false);
}

/// When the shapes have the same rank, every dimension is declared, and
/// some pair of dimensions provably differs (two different constants, or
/// `c*s+k1` against `c*s+k2` with `k1 != k2`), the question is answered with
/// a contradiction, never "proved" or "unknown".
pub proof fn law_provably_different_dimensions_contradict(f: FactsV, l: Seq<DimV>, r: Seq<DimV>, i: int, a: NormV, b: NormV)
    requires
        l.len() == r.len(),
        0 <= i < l.len(),
        forall|j: int| 0 <= j < l.len() ==> (#[trigger] norm_dim(f, l[j])) is Some && norm_dim(f, r[j]) is Some,
        norm_dim(f, l[i]) == Some(a),
        norm_dim(f, r[i]) == Some(b),
        provably_differ(a, b),
    ensures
        raw_query(f, l, r) matches Some(RawV::Contradiction(_, _)),
        !f.facts.contains(ConstraintV::Equal(l, r)) && !f.facts.contains(ConstraintV::Equal(r, l)) ==> shape_query(f, l, r) matches Some(QueryV::Contradiction(_, _, _, _)),
        constraint_declared(f, ConstraintV::Equal(l, r)) && !f.facts.contains(ConstraintV::Equal(l, r)) ==> insert_outcome(f, ConstraintV::Equal(l, r)) == Err::<(FactsV, QueryV), ErrorCode>(ErrorCode::ConstraintContradiction),
{
    lemma_scan_contradicts(f, l, r, 0, false, i, a, b);
}

/// A contradiction between shapes of the same rank names a pair of
/// dimensions that provably differs: its expected and actual texts are the
/// normalized texts of that pair.
pub proof fn law_contradiction_names_differing_dimensions(f: FactsV, l: Seq<DimV>, r: Seq<DimV>, e: Seq<char>, t: Seq<char>)
    requires
        l.len() == r.len(),
        raw_query(f, l, r) == Some(RawV::Contradiction(e, t)),
    ensures
        exists|i: int|
            0 <= i < l.len() && (#[trigger] norm_dim(f, l[i])) is Some && norm_dim(f, r[i]) is Some && provably_differ(
                norm_dim(f, l[i])->0,
                norm_dim(f, r[i])->0,
            ) && e == norm_text(norm_dim(f, l[i])->0) && t == norm_text(norm_dim(f, r[i])->0),
{
    lemma_scan_contradiction_witness(f, l, r, 0, false, e, t);
}

/// The empty fact set.
pub open spec fn empty_facts() -> FactsV {
    FactsV {
        parents: Map::empty(),
        statics: Map::empty(),
        nonneg: Set::empty(),
        facts: Seq::empty(),
    }
}

/// The outcome of declaring `s`.
pub open spec fn declare_outcome(f: FactsV, s: Seq<char>, non_negative: bool) -> Result<FactsV, ErrorCode> {
    if valid_symbol(s) && !f.parents.contains_key(s) {
        Ok(declared(f, s, non_negative))
    } else {
        Err(ErrorCode::InvalidConstraint)
    }
}

/// The facts after declaring the first `i` dimensions in key order, or the first error.
pub open spec fn declare_dimensions(dims: Seq<(Seq<char>, Dimension)>, i: nat) -> Result<FactsV, ErrorCode>
    decreases i,
{
    if i == 0 {
        Ok(empty_facts())
    } else {
        match declare_dimensions(dims, (i - 1) as nat) {
            Err(c) => Err(c),
            Ok(f) => declare_outcome(f, dims[i - 1].1.name@, dims[i - 1].1.non_negative),
        }
    }
}

/// The facts after inserting the first `i` constraints in order into `f`, or the first error.
pub open spec fn insert_constraints(f: FactsV, cs: Seq<ConstraintV>, i: nat) -> Result<FactsV, ErrorCode>
    decreases i,
{
    if i == 0 {
        Ok(f)
    } else {
        match insert_constraints(f, cs, (i - 1) as nat) {
            Err(c) => Err(c),
            Ok(g) => match insert_outcome(g, cs[i - 1]) {
                Err(c) => Err(c),
                Ok((h, _)) => Ok(h),
            },
        }
    }
}

/// The facts of a program: its dimensions declared in key order, then its
/// constraints inserted in order.
pub open spec fn program_facts(p: Program) -> Result<FactsV, ErrorCode> {
    match declare_dimensions(p.dimensions.kv(), p.dimensions.kv().len()) {
        Err(c) => Err(c),
        Ok(f) => insert_constraints(f, constraint_views(p.constraints@), p.constraints@.len()),
    }
}

proof fn lemma_declare_error_persists(dims: Seq<(Seq<char>, Dimension)>, i: nat, j: nat)
    requires
        i <= j,
        declare_dimensions(dims, i) is Err,
    ensures
        declare_dimensions(dims, j) == declare_dimensions(dims, i),
    decreases j - i,
{
    if i < j {
        lemma_declare_error_persists(dims, i, (j - 1) as nat);
    }
}

proof fn lemma_insert_error_persists(f: FactsV, cs: Seq<ConstraintV>, i: nat, j: nat)
    requires
        i <= j,
        insert_constraints(f, cs, i) is Err,
    ensures
        insert_constraints(f, cs, j) == insert_constraints(f, cs, i),
    decreases j - i,
{
    if i < j {
        lemma_insert_error_persists(f, cs, i, (j - 1) as nat);
    }
}

impl ConstraintFacts {
    /// Builds the fact set of a program: declares its dimensions in key
    /// order, then inserts its constraints in order; the first failure is
    /// returned.
    pub fn from_program(program: &Program) -> (r: AgentResult<Self>)
        ensures
            match program_facts(*program) {
                Ok(f) => r matches Ok(x) && x@ == f,
                Err(c) => r matches Err(e) && e.code == c,
            },
    {
        let mut facts = ConstraintFacts::new();
        let n = program.dimensions.len();
        let ghost dims = program.dimensions.kv();
        proof {
            assert(facts@ == empty_facts());
        }
        let mut i: usize = 0;
        while i < n
            invariant
                n == dims.len(),
                dims == program.dimensions.kv(),
                i <= n,
                declare_dimensions(dims, i as nat) == Ok::<FactsV, ErrorCode>(facts@),
            decreases n - i,
        {
            let (_, dimension) = program.dimensions.entry_at(i);
            match facts.declare_symbol(dimension.name.as_str(), dimension.non_negative) {
                Ok(()) => {},
                Err(e) => {
                    proof {
                        lemma_declare_error_persists(dims, (i + 1) as nat, n as nat);
                    }
                    return Err(e);
                },
            }
            i = i + 1;
        }
        let ghost base = facts@;
        let ghost cs = constraint_views(program.constraints@);
        let m = program.constraints.len();
        let mut j: usize = 0;
        while j < m
            invariant
                m == program.constraints@.len(),
                cs == constraint_views(program.constraints@),
                declare_dimensions(dims, dims.len()) == Ok::<FactsV, ErrorCode>(base),
                dims == program.dimensions.kv(),
                j <= m,
                insert_constraints(base, cs, j as nat) == Ok::<FactsV, ErrorCode>(facts@),
            decreases m - j,
        {
            let constraint = &program.constraints[j];
            proof {
                assert(cs[j as int] == constraint@);
            }
            match facts.insert(constraint) {
                Ok(_) => {},
                Err(e) => {
                    proof {
                        lemma_insert_error_persists(base, cs, (j + 1) as nat, m as nat);
                    }
                    return Err(e);
                },
            }
            j = j + 1;
        }
        Ok(facts)
    }
}

proof fn lemma_declared_facts_empty(dims: Seq<(Seq<char>, Dimension)>, i: nat)
    ensures
        declare_dimensions(dims, i) matches Ok(f) ==> f.facts.len() == 0,
    decreases i,
{
    if i > 0 {
        lemma_declared_facts_empty(dims, (i - 1) as nat);
    }
}

proof fn lemma_insert_constraints_all(f: FactsV, cs: Seq<ConstraintV>, i: nat)
    requires
        i <= cs.len(),
    ensures
        insert_constraints(f, cs, i) == insert_all(f, cs.take(i as int)),
    decreases i,
{
    if i > 0 {
        lemma_insert_constraints_all(f, cs, (i - 1) as nat);
        assert(cs.take(i as int).drop_last() =~= cs.take(i - 1));
        assert(cs.take(i as int).last() == cs[i - 1]);
    }
}

/// Building the facts of a program does not depend on the order of its
/// constraints: two programs with the same dimensions and the same set of
/// constraints, whose facts both build, accept the same canonical facts.
pub proof fn law_program_facts_ignore_constraint_order(p1: Program, p2: Program)
    requires
        p1.dimensions.kv() == p2.dimensions.kv(),
        constraint_views(p1.constraints@).to_set() == constraint_views(p2.constraints@).to_set(),
        program_facts(p1) is Ok,
        program_facts(p2) is Ok,
    ensures
        program_facts(p1)->Ok_0.facts == program_facts(p2)->Ok_0.facts,
{
    let dims = p1.dimensions.kv();
    lemma_declared_facts_empty(dims, dims.len());
    let f = declare_dimensions(dims, dims.len())->Ok_0;
    assert(constraints_sorted(f.facts));
    let c1 = constraint_views(p1.constraints@);
    let c2 = constraint_views(p2.constraints@);
    lemma_insert_constraints_all(f, c1, p1.constraints@.len());
    lemma_insert_constraints_all(f, c2, p2.constraints@.len());
    assert(c1.take(p1.constraints@.len() as int) =~= c1);
    assert(c2.take(p2.constraints@.len() as int) =~= c2);
    law_accepted_facts_ignore_insertion_order(f, c1, c2);
}

} // verus!
