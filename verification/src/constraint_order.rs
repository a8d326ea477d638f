//! The canonical order of shape constraints: variants in declaration order,
//! fields compared lexicographically, shapes dimension by dimension.

use crate::text::{lemma_less_irreflexive, lemma_less_total, lemma_less_transitive, seq_less, str_eq, str_less};
use crate::types::{ConstraintV, DimExpr, DimV, Shape, ShapeConstraint};
use vstd::prelude::*;

verus! {

/// Position of a dimension's variant.
pub open spec fn dim_rank(d: DimV) -> int {
    match d {
        DimV::Static(_) => 0,
        DimV::Symbol(_) => 1,
        DimV::Affine(_, _, _) => 2,
    }
}

/// Strict order of dimensions.
pub open spec fn dim_less(a: DimV, b: DimV) -> bool {
    if dim_rank(a) != dim_rank(b) {
        dim_rank(a) < dim_rank(b)
    } else {
        match (a, b) {
            (DimV::Static(x), DimV::Static(y)) => x < y,
            (DimV::Symbol(x), DimV::Symbol(y)) => seq_less(x, y),
            (DimV::Affine(c1, s1, k1), DimV::Affine(c2, s2, k2)) => c1 < c2 || (c1 == c2 && (seq_less(s1, s2)
                || (s1 == s2 && k1 < k2))),
            _ => false,
        }
    }
}

/// Strict lexicographic order of shapes.
pub open spec fn shape_less(a: Seq<DimV>, b: Seq<DimV>) -> bool
    decreases a.len(),
{
    if a.len() == 0 {
        b.len() > 0
    } else if b.len() == 0 {
        false
    } else if a[0] != b[0] {
        dim_less(a[0], b[0])
    } else {
        shape_less(a.drop_first(), b.drop_first())
    }
}

/// Strict order of constraints: equalities first, by left then right shape;
/// then non-negativity facts by symbol.
pub open spec fn constraint_less(a: ConstraintV, b: ConstraintV) -> bool {
    match (a, b) {
        (ConstraintV::Equal(l1, r1), ConstraintV::Equal(l2, r2)) => shape_less(l1, l2) || (l1 == l2 && shape_less(r1, r2)),
        (ConstraintV::Equal(_, _), ConstraintV::NonNegative(_)) => true,
        (ConstraintV::NonNegative(_), ConstraintV::Equal(_, _)) => false,
        (ConstraintV::NonNegative(x), ConstraintV::NonNegative(y)) => seq_less(x, y),
    }
}

pub proof fn lemma_dim_order(a: DimV, b: DimV, c: DimV)
    ensures
        !dim_less(a, a),
        dim_less(a, b) && dim_less(b, c) ==> dim_less(a, c),
        a != b ==> dim_less(a, b) || dim_less(b, a),
{
    match a {
        DimV::Symbol(x) => {
            lemma_less_irreflexive(x);
        },
        DimV::Affine(_, x, _) => {
            lemma_less_irreflexive(x);
        },
        _ => {},
    }
    if dim_less(a, b) && dim_less(b, c) {
        match (a, b, c) {
            (DimV::Symbol(x), DimV::Symbol(y), DimV::Symbol(z)) => {
                lemma_less_transitive(x, y, z);
            },
            (DimV::Affine(c1, x, k1), DimV::Affine(c2, y, k2), DimV::Affine(c3, z, k3)) => {
                if seq_less(x, y) && seq_less(y, z) {
                    lemma_less_transitive(x, y, z);
                }
            },
            _ => {},
        }
    }
    if a != b {
        match (a, b) {
            (DimV::Symbol(x), DimV::Symbol(y)) => {
                lemma_less_total(x, y);
            },
            (DimV::Affine(c1, x, k1), DimV::Affine(c2, y, k2)) => {
                lemma_less_total(x, y);
            },
            _ => {},
        }
    }
}

pub proof fn lemma_shape_irreflexive(a: Seq<DimV>)
    ensures
        !shape_less(a, a),
    decreases a.len(),
{
    if a.len() > 0 {
        lemma_shape_irreflexive(a.drop_first());
    }
}

pub proof fn lemma_shape_transitive(a: Seq<DimV>, b: Seq<DimV>, c: Seq<DimV>)
    requires
        shape_less(a, b),
        shape_less(b, c),
    ensures
        shape_less(a, c),
    decreases a.len(),
{
    if a.len() > 0 && b.len() > 0 && c.len() > 0 {
        lemma_dim_order(a[0], b[0], c[0]);
        lemma_dim_order(b[0], a[0], c[0]);
        lemma_dim_order(a[0], c[0], b[0]);
        if a[0] == b[0] && b[0] == c[0] {
            lemma_shape_transitive(a.drop_first(), b.drop_first(), c.drop_first());
        }
    }
}

pub proof fn lemma_shape_total(a: Seq<DimV>, b: Seq<DimV>)
    requires
        a != b,
    ensures
        shape_less(a, b) || shape_less(b, a),
    decreases a.len(),
{
    if a.len() > 0 && b.len() > 0 {
        lemma_dim_order(a[0], b[0], a[0]);
        if a[0] == b[0] {
            if a.drop_first() == b.drop_first() {
                assert(a =~= seq![a[0]] + a.drop_first());
                assert(b =~= seq![b[0]] + b.drop_first());
            }
            lemma_shape_total(a.drop_first(), b.drop_first());
        }
    } else if a.len() == 0 && b.len() == 0 {
        assert(a =~= b);
    }
}

/// The constraint order is a strict total order.
pub proof fn lemma_constraint_order(a: ConstraintV, b: ConstraintV, c: ConstraintV)
    ensures
        !constraint_less(a, a),
        constraint_less(a, b) && constraint_less(b, c) ==> constraint_less(a, c),
        a != b ==> constraint_less(a, b) || constraint_less(b, a),
{
    match a {
        ConstraintV::Equal(l, r) => {
            lemma_shape_irreflexive(l);
            lemma_shape_irreflexive(r);
        },
        ConstraintV::NonNegative(x) => {
            lemma_less_irreflexive(x);
        },
    }
    if constraint_less(a, b) && constraint_less(b, c) {
        match (a, b, c) {
            (ConstraintV::Equal(l1, r1), ConstraintV::Equal(l2, r2), ConstraintV::Equal(l3, r3)) => {
                if shape_less(l1, l2) && shape_less(l2, l3) {
                    lemma_shape_transitive(l1, l2, l3);
                }
                if l1 == l2 && l2 == l3 {
                    lemma_shape_transitive(r1, r2, r3);
                }
            },
            (ConstraintV::NonNegative(x), ConstraintV::NonNegative(y), ConstraintV::NonNegative(z)) => {
                lemma_less_transitive(x, y, z);
            },
            _ => {},
        }
    }
    if a != b {
        match (a, b) {
            (ConstraintV::Equal(l1, r1), ConstraintV::Equal(l2, r2)) => {
                if l1 != l2 {
                    lemma_shape_total(l1, l2);
                } else {
                    lemma_shape_total(r1, r2);
                }
            },
            (ConstraintV::NonNegative(x), ConstraintV::NonNegative(y)) => {
                lemma_less_total(x, y);
            },
            _ => {},
        }
    }
}

fn dim_less_exec(a: &DimExpr, b: &DimExpr) -> (r: bool)
    ensures
        r == dim_less(a@, b@),
{
    match (a, b) {
        (DimExpr::Static(x), DimExpr::Static(y)) => *x < *y,
        (DimExpr::Static(_), _) => true,
        (DimExpr::Symbol(_), DimExpr::Static(_)) => false,
        (DimExpr::Symbol(x), DimExpr::Symbol(y)) => str_less(x.as_str(), y.as_str()),
        (DimExpr::Symbol(_), DimExpr::Affine { .. }) => true,
        (DimExpr::Affine { .. }, DimExpr::Static(_)) => false,
        (DimExpr::Affine { .. }, DimExpr::Symbol(_)) => false,
        (
            DimExpr::Affine { coefficient: c1, symbol: s1, constant: k1 },
            DimExpr::Affine { coefficient: c2, symbol: s2, constant: k2 },
        ) => *c1 < *c2 || (*c1 == *c2 && (str_less(s1.as_str(), s2.as_str()) || (str_eq(s1.as_str(), s2.as_str())
            && *k1 < *k2))),
    }
}

/// Compares two shapes in the canonical order.
pub fn shape_less_exec(a: &Shape, b: &Shape) -> (r: bool)
    ensures
        r == shape_less(a@, b@),
{
    let ghost av = a@;
    let ghost bv = b@;
    let mut i: usize = 0;
    assert(av.skip(0) =~= av);
    assert(bv.skip(0) =~= bv);
    while i < a.0.len() && i < b.0.len()
        invariant
            av == a@,
            bv == b@,
            i <= a.0@.len(),
            i <= b.0@.len(),
            shape_less(av, bv) == shape_less(av.skip(i as int), bv.skip(i as int)),
        decreases a.0.len() - i,
    {
        let x = &a.0[i];
        let y = &b.0[i];
        let ghost sa = av.skip(i as int);
        let ghost sb = bv.skip(i as int);
        assert(sa[0] == x@ && sb[0] == y@);
        assert(sa.drop_first() =~= av.skip(i + 1));
        assert(sb.drop_first() =~= bv.skip(i + 1));
        if !x.same(y) {
            return dim_less_exec(x, y);
        }
        i = i + 1;
    }
    i < b.0.len()
}

/// Compares two constraints in the canonical order.
pub fn constraint_less_exec(a: &ShapeConstraint, b: &ShapeConstraint) -> (r: bool)
    ensures
        r == constraint_less(a@, b@),
{
    match (a, b) {
        (ShapeConstraint::Equal { left: l1, right: r1 }, ShapeConstraint::Equal { left: l2, right: r2 }) =>
            shape_less_exec(l1, l2) || (l1.same(l2) && shape_less_exec(r1, r2)),
        (ShapeConstraint::Equal { .. }, ShapeConstraint::NonNegative { .. }) => true,
        (ShapeConstraint::NonNegative { .. }, ShapeConstraint::Equal { .. }) => false,
        (ShapeConstraint::NonNegative { symbol: x }, ShapeConstraint::NonNegative { symbol: y }) =>
            str_less(x.as_str(), y.as_str()),
    }
}

/// Whether constraint models are strictly increasing in the canonical order.
pub open spec fn constraints_sorted(s: Seq<ConstraintV>) -> bool {
    forall|i: int, j: int| 0 <= i < j < s.len() ==> constraint_less(#[trigger] s[i], #[trigger] s[j])
}

/// The models of a constraint vector.
pub open spec fn constraint_views(v: Seq<ShapeConstraint>) -> Seq<ConstraintV> {
    v.map_values(|c: ShapeConstraint| c@)
}

/// Whether a sorted constraint vector holds `c`.
pub fn sorted_contains(v: &Vec<ShapeConstraint>, c: &ShapeConstraint) -> (r: bool)
    ensures
        r == constraint_views(v@).contains(c@),
{
    let ghost vs = constraint_views(v@);
    let mut i: usize = 0;
    while i < v.len()
        invariant
            vs == constraint_views(v@),
            i <= v@.len(),
            forall|j: int| 0 <= j < i ==> vs[j] != c@,
        decreases v.len() - i,
    {
        if v[i].same(c) {
            assert(vs[i as int] == c@);
            return true;
        }
        i = i + 1;
    }
    false
}


/// `c` inserted into a sorted sequence at its place; unchanged when present.
pub open spec fn sorted_insert(s: Seq<ConstraintV>, c: ConstraintV) -> Seq<ConstraintV>
    decreases s.len(),
{
    if s.len() == 0 {
        seq![c]
    } else if constraint_less(s[0], c) {
        seq![s[0]] + sorted_insert(s.drop_first(), c)
    } else if s[0] == c {
        s
    } else {
        seq![c] + s
    }
}

proof fn lemma_sorted_insert_at(s: Seq<ConstraintV>, c: ConstraintV, i: int)
    requires
        0 <= i <= s.len(),
        forall|j: int| 0 <= j < i ==> constraint_less(#[trigger] s[j], c),
        i == s.len() || !constraint_less(s[i], c),
    ensures
        sorted_insert(s, c) == (if i < s.len() && s[i] == c {
            s
        } else {
            s.take(i) + seq![c] + s.skip(i)
        }),
    decreases i,
{
    if i == 0 {
        if s.len() == 0 {
            assert(s.take(0) + seq![c] + s.skip(0) =~= seq![c]);
        } else if s[0] != c {
            assert(s.take(0) + seq![c] + s.skip(0) =~= seq![c] + s);
        }
    } else {
        let t = s.drop_first();
        assert forall|j: int| 0 <= j < i - 1 implies constraint_less(#[trigger] t[j], c) by {
            assert(t[j] == s[j + 1]);
        }
        if i < s.len() {
            assert(t[i - 1] == s[i]);
        }
        lemma_sorted_insert_at(t, c, i - 1);
        if i < s.len() && s[i] == c {
            assert(seq![s[0]] + t =~= s);
        } else {
            assert(seq![s[0]] + (t.take(i - 1) + seq![c] + t.skip(i - 1)) =~= s.take(i) + seq![c] + s.skip(i));
        }
    }
}

/// Inserts `c` into a strictly increasing constraint vector, keeping it
/// strictly increasing; a constraint already present leaves it unchanged.
pub fn insert_sorted_constraint(v: &mut Vec<ShapeConstraint>, c: ShapeConstraint)
    requires
        constraints_sorted(constraint_views(old(v)@)),
    ensures
        constraints_sorted(constraint_views(final(v)@)),
        constraint_views(final(v)@).to_set() == constraint_views(old(v)@).to_set().insert(c@),
        constraint_views(old(v)@).contains(c@) ==> constraint_views(final(v)@) == constraint_views(old(v)@),
        constraint_views(final(v)@) == sorted_insert(constraint_views(old(v)@), c@),
{
    let ghost o = constraint_views(v@);
    let mut i: usize = 0;
    while i < v.len() && constraint_less_exec(&v[i], &c)
        invariant
            i <= v@.len(),
            o == constraint_views(v@),
            forall|j: int| 0 <= j < i ==> constraint_less(#[trigger] o[j], c@),
        decreases v.len() - i,
    {
        i = i + 1;
    }
    proof {
        lemma_sorted_insert_at(o, c@, i as int);
    }
    if i < v.len() && v[i].same(&c) {
        assert(o.to_set().insert(c@) =~= o.to_set()) by {
            assert(o.contains(c@) && o[i as int] == c@);
        }
        return;
    }
    proof {
        if o.contains(c@) {
            let k = choose|k: int| 0 <= k < o.len() && o[k] == c@;
            lemma_constraint_order(c@, c@, c@);
            if k >= i {
                if k > i {
                    assert(constraint_less(o[i as int], o[k]));
                }
                lemma_constraint_order(o[i as int], c@, c@);
            }
        }
    }
    let ghost cv = c@;
    v.insert(i, c);
    proof {
        let n = constraint_views(v@);
        assert(n =~= o.insert(i as int, cv));
        assert(n =~= o.take(i as int) + seq![cv] + o.skip(i as int));
        if i < o.len() {
            lemma_constraint_order(cv, o[i as int], cv);
            assert(constraint_less(cv, o[i as int]));
        }
        assert forall|a: int, b: int| 0 <= a < b < n.len() implies constraint_less(#[trigger] n[a], #[trigger] n[b]) by {
            if b < i {
                assert(n[a] == o[a] && n[b] == o[b]);
            } else if b == i {
                assert(n[a] == o[a]);
            } else if a == i {
                assert(n[b] == o[b - 1]);
                if b - 1 > i {
                    assert(constraint_less(o[i as int], o[b - 1]));
                    lemma_constraint_order(cv, o[i as int], o[b - 1]);
                }
            } else if a < i {
                assert(n[a] == o[a] && n[b] == o[b - 1]);
                if b - 1 > i {
                    assert(constraint_less(o[i as int], o[b - 1]));
                    lemma_constraint_order(cv, o[i as int], o[b - 1]);
                }
                lemma_constraint_order(o[a], cv, o[b - 1]);
            } else {
                assert(n[a] == o[a - 1] && n[b] == o[b - 1]);
            }
        }
        assert(n.to_set() =~= o.to_set().insert(cv)) by {
            assert forall|y: ConstraintV| n.to_set().contains(y) <==> o.to_set().insert(cv).contains(y) by {
                if n.contains(y) {
                    let k = choose|k: int| 0 <= k < n.len() && n[k] == y;
                    if k < i {
                        assert(o[k] == y);
                    } else if k > i {
                        assert(o[k - 1] == y);
                    }
                }
                if o.contains(y) {
                    let k = choose|k: int| 0 <= k < o.len() && o[k] == y;
                    if k < i {
                        assert(n[k] == y);
                    } else {
                        assert(n[k + 1] == y);
                    }
                }
                if y == cv {
                    assert(n[i as int] == cv);
                }
            }
        }
    }
}

/// Sorted insertion keeps the sequence sorted and adds exactly `c`.
pub proof fn lemma_sorted_insert(s: Seq<ConstraintV>, c: ConstraintV)
    requires
        constraints_sorted(s),
    ensures
        constraints_sorted(sorted_insert(s, c)),
        sorted_insert(s, c).to_set() == s.to_set().insert(c),
    decreases s.len(),
{
    if s.len() == 0 {
        assert(seq![c].to_set() =~= Set::<ConstraintV>::empty().insert(c)) by {
            assert(seq![c][0] == c);
        }
        assert(s.to_set() =~= Set::<ConstraintV>::empty());
    } else {
        let t = s.drop_first();
        assert(constraints_sorted(t)) by {
            assert forall|i: int, j: int| 0 <= i < j < t.len() implies constraint_less(#[trigger] t[i], #[trigger] t[j]) by {
                assert(t[i] == s[i + 1] && t[j] == s[j + 1]);
            }
        }
        assert(s =~= seq![s[0]] + t);
        assert forall|x: ConstraintV| s.to_set().contains(x) <==> (x == s[0] || t.to_set().contains(x)) by {
            if s.contains(x) {
                let k = choose|k: int| 0 <= k < s.len() && s[k] == x;
                if k > 0 {
                    assert(t[k - 1] == x);
                }
            }
            if t.contains(x) {
                let k = choose|k: int| 0 <= k < t.len() && t[k] == x;
                assert(s[k + 1] == x);
            }
            if x == s[0] {
                assert(s.contains(s[0]));
            }
        }
        if constraint_less(s[0], c) {
            lemma_sorted_insert(t, c);
            let r = sorted_insert(t, c);
            let n = seq![s[0]] + r;
            assert forall|x: ConstraintV| r.to_set().contains(x) implies constraint_less(s[0], x) by {
                if x != c {
                    assert(t.to_set().contains(x));
                    let k = choose|k: int| 0 <= k < t.len() && t[k] == x;
                    assert(s[k + 1] == x);
                }
            }
            assert forall|i: int, j: int| 0 <= i < j < n.len() implies constraint_less(#[trigger] n[i], #[trigger] n[j]) by {
                if i == 0 {
                    assert(n[j] == r[j - 1]);
                    assert(r.contains(r[j - 1]));
                    assert(r.to_set().contains(r[j - 1]));
                    assert(constraint_less(s[0], r[j - 1]));
                } else {
                    assert(n[i] == r[i - 1] && n[j] == r[j - 1]);
                }
            }
            assert forall|x: ConstraintV| n.to_set().contains(x) <==> s.to_set().insert(c).contains(x) by {
                if n.contains(x) {
                    let k = choose|k: int| 0 <= k < n.len() && n[k] == x;
                    if k > 0 {
                        assert(r[k - 1] == x);
                        assert(r.to_set().contains(x));
                    }
                }
                if r.contains(x) {
                    let k = choose|k: int| 0 <= k < r.len() && r[k] == x;
                    assert(n[k + 1] == x);
                }
                if x == s[0] {
                    assert(n[0] == x);
                }
                if x == c || t.to_set().contains(x) {
                    assert(r.to_set().contains(x));
                }
            }
            assert(n.to_set() =~= s.to_set().insert(c));
        } else if s[0] == c {
            assert(s.to_set().insert(c) =~= s.to_set());
        } else {
            lemma_constraint_order(c, s[0], c);
            let n = seq![c] + s;
            assert forall|i: int, j: int| 0 <= i < j < n.len() implies constraint_less(#[trigger] n[i], #[trigger] n[j]) by {
                if i == 0 {
                    assert(n[j] == s[j - 1]);
                    if j - 1 > 0 {
                        assert(constraint_less(s[0], s[j - 1]));
                        lemma_constraint_order(c, s[0], s[j - 1]);
                    }
                } else {
                    assert(n[i] == s[i - 1] && n[j] == s[j - 1]);
                }
            }
            assert forall|x: ConstraintV| n.to_set().contains(x) <==> s.to_set().insert(c).contains(x) by {
                if n.contains(x) {
                    let k = choose|k: int| 0 <= k < n.len() && n[k] == x;
                    if k > 0 {
                        assert(s[k - 1] == x);
                    }
                }
                if s.contains(x) {
                    let k = choose|k: int| 0 <= k < s.len() && s[k] == x;
                    assert(n[k + 1] == x);
                }
                if x == c {
                    assert(n[0] == x);
                }
            }
            assert(n.to_set() =~= s.to_set().insert(c));
        }
    }
}

/// A sorted sequence is determined by its elements.
pub proof fn lemma_sorted_unique(a: Seq<ConstraintV>, b: Seq<ConstraintV>)
    requires
        constraints_sorted(a),
        constraints_sorted(b),
        a.to_set() == b.to_set(),
    ensures
        a == b,
    decreases a.len(),
{
    if a.len() == 0 {
        if b.len() > 0 {
            assert(b.to_set().contains(b[0]));
            assert(a.contains(b[0]));
        }
        assert(a =~= b);
    } else {
        assert(a.to_set().contains(a[0]));
        assert(b.contains(a[0]));
        let j = choose|j: int| 0 <= j < b.len() && b[j] == a[0];
        assert(b.to_set().contains(b[0]));
        assert(a.contains(b[0]));
        let i = choose|i: int| 0 <= i < a.len() && a[i] == b[0];
        if a[0] != b[0] {
            assert(j > 0 && i > 0);
            assert(constraint_less(b[0], b[j]));
            assert(constraint_less(a[0], a[i]));
            lemma_constraint_order(a[0], b[0], a[0]);
        }
        let a1 = a.drop_first();
        let b1 = b.drop_first();
        assert(constraints_sorted(a1)) by {
            assert forall|x: int, y: int| 0 <= x < y < a1.len() implies constraint_less(#[trigger] a1[x], #[trigger] a1[y]) by {
                assert(a1[x] == a[x + 1] && a1[y] == a[y + 1]);
            }
        }
        assert(constraints_sorted(b1)) by {
            assert forall|x: int, y: int| 0 <= x < y < b1.len() implies constraint_less(#[trigger] b1[x], #[trigger] b1[y]) by {
                assert(b1[x] == b[x + 1] && b1[y] == b[y + 1]);
            }
        }
        assert(a1.to_set() =~= b1.to_set()) by {
            assert forall|x: ConstraintV| a1.to_set().contains(x) <==> b1.to_set().contains(x) by {
                if a1.contains(x) {
                    let t = choose|t: int| 0 <= t < a1.len() && a1[t] == x;
                    assert(a[t + 1] == x);
                    assert(constraint_less(a[0], a[t + 1]));
                    lemma_constraint_order(x, x, x);
                    assert(a.to_set().contains(x));
                    let u = choose|u: int| 0 <= u < b.len() && b[u] == x;
                    assert(u != 0);
                    assert(b1[u - 1] == x);
                }
                if b1.contains(x) {
                    let t = choose|t: int| 0 <= t < b1.len() && b1[t] == x;
                    assert(b[t + 1] == x);
                    assert(constraint_less(b[0], b[t + 1]));
                    lemma_constraint_order(x, x, x);
                    assert(b.to_set().contains(x));
                    let u = choose|u: int| 0 <= u < a.len() && a[u] == x;
                    assert(u != 0);
                    assert(a1[u - 1] == x);
                }
            }
        }
        lemma_sorted_unique(a1, b1);
        assert(a =~= seq![a[0]] + a1);
        assert(b =~= seq![b[0]] + b1);
    }
}

} // verus!
