//! Deterministically ordered maps keyed by identifier strings.
//!
//! Every compiler-owned table is keyed by a persistent string identifier and
//! iterated in the identifier's string order, which makes serialization and
//! derived analyses independent of insertion history.

use crate::text::{lemma_less_irreflexive, lemma_less_asymmetric, lemma_less_transitive, lemma_less_total, seq_less, str_eq, str_less};
use vstd::prelude::*;

verus! {

/// Whether the keys of an entry sequence are strictly increasing.
pub open spec fn sorted_kv<V>(kv: Seq<(Seq<char>, V)>) -> bool {
    forall|i: int, j: int| 0 <= i < j < kv.len() ==> seq_less(#[trigger] kv[i].0, #[trigger] kv[j].0)
}

/// The keys of an entry sequence, in order.
pub open spec fn kv_keys<V>(kv: Seq<(Seq<char>, V)>) -> Seq<Seq<char>> {
    kv.map_values(|e: (Seq<char>, V)| e.0)
}

/// Whether a key occurs in an entry sequence.
pub open spec fn kv_has<V>(kv: Seq<(Seq<char>, V)>, k: Seq<char>) -> bool {
    exists|i: int| 0 <= i < kv.len() && #[trigger] kv[i].0 == k
}

/// The map denoted by an entry sequence.
pub open spec fn kv_map<V>(kv: Seq<(Seq<char>, V)>) -> Map<Seq<char>, V> {
    Map::new(
        |k: Seq<char>| kv_has(kv, k),
        |k: Seq<char>| kv[choose|i: int| 0 <= i < kv.len() && #[trigger] kv[i].0 == k].1,
    )
}

/// A map from identifier strings to values, kept in increasing key order.
#[derive(Debug)]
pub struct IdMap<V> {
    entries: Vec<(String, V)>,
}

impl<V> IdMap<V> {
    /// The entries as (key, value) pairs in increasing key order.
    pub closed spec fn kv(self) -> Seq<(Seq<char>, V)> {
        self.entries@.map_values(|e: (String, V)| (e.0@, e.1))
    }

    #[verifier::type_invariant]
    closed spec fn inv(self) -> bool {
        sorted_kv(self.kv())
    }

    /// The number of entries.
    pub open spec fn spec_len(self) -> nat {
        self.kv().len()
    }

    /// The keys in increasing order.
    pub open spec fn keys_seq(self) -> Seq<Seq<char>> {
        kv_keys(self.kv())
    }

    /// Whether `k` is a key.
    pub open spec fn has(self, k: Seq<char>) -> bool {
        kv_has(self.kv(), k)
    }
}

impl<V> View for IdMap<V> {
    type V = Map<Seq<char>, V>;

    open spec fn view(&self) -> Map<Seq<char>, V> {
        kv_map(self.kv())
    }
}

/// In a sorted entry sequence each key denotes the entry at its position.
pub proof fn lemma_kv_at<V>(kv: Seq<(Seq<char>, V)>, i: int)
    requires
        sorted_kv(kv),
        0 <= i < kv.len(),
    ensures
        kv_map(kv).contains_key(kv[i].0),
        kv_map(kv)[kv[i].0] == kv[i].1,
        kv_has(kv, kv[i].0),
{
    assert(kv_has(kv, kv[i].0));
    let j = choose|j: int| 0 <= j < kv.len() && #[trigger] kv[j].0 == kv[i].0;
    if j != i {
        if j < i {
            assert(seq_less(kv[j].0, kv[i].0));
        } else {
            assert(seq_less(kv[i].0, kv[j].0));
        }
        lemma_less_irreflexive(kv[i].0);
    }
}

/// Every key of a sorted entry sequence occurs at exactly one position.
pub proof fn lemma_kv_unique<V>(kv: Seq<(Seq<char>, V)>, i: int, j: int)
    requires
        sorted_kv(kv),
        0 <= i < kv.len(),
        0 <= j < kv.len(),
        kv[i].0 == kv[j].0,
    ensures
        i == j,
{
    if i < j {
        assert(seq_less(kv[i].0, kv[j].0));
        lemma_less_irreflexive(kv[i].0);
    } else if j < i {
        assert(seq_less(kv[j].0, kv[i].0));
        lemma_less_irreflexive(kv[i].0);
    }
}

impl<V> IdMap<V> {
    /// Creates an empty map.
    pub fn new() -> (r: Self)
        ensures
            r.kv() == Seq::<(Seq<char>, V)>::empty(),
            r@ == Map::<Seq<char>, V>::empty(),
    {
        let r = IdMap { entries: Vec::new() };
        assert(r.kv() =~= Seq::<(Seq<char>, V)>::empty());
        assert(r@ =~= Map::<Seq<char>, V>::empty());
        r
    }

    /// Returns the number of entries.
    pub fn len(&self) -> (r: usize)
        ensures
            r == self.spec_len(),
            sorted_kv(self.kv()),
    {
        proof {
            use_type_invariant(self);
        }
        self.entries.len()
    }

    /// Returns the key and value at a position of the increasing key order.
    pub fn entry_at(&self, i: usize) -> (r: (&String, &V))
        requires
            i < self.spec_len(),
        ensures
            r.0@ == self.kv()[i as int].0,
            *r.1 == self.kv()[i as int].1,
            sorted_kv(self.kv()),
    {
        proof {
            use_type_invariant(self);
        }
        let e = &self.entries[i];
        (&e.0, &e.1)
    }

    /// Locates `k`: its position if present, else the position it would take.
    pub fn find(&self, k: &str) -> (r: (usize, bool))
        ensures
            r.0 <= self.spec_len(),
            sorted_kv(self.kv()),
            r.1 ==> r.0 < self.spec_len() && self.kv()[r.0 as int].0 == k@,
            !r.1 ==> (forall|i: int| 0 <= i < r.0 ==> seq_less(#[trigger] self.kv()[i].0, k@)),
            !r.1 ==> (forall|i: int|
                r.0 <= i < self.spec_len() ==> seq_less(k@, #[trigger] self.kv()[i].0)),
            r.1 == self.has(k@),
    {
        proof {
            use_type_invariant(self);
        }
        let n = self.entries.len();
        let mut i: usize = 0;
        while i < n && str_less(self.entries[i].0.as_str(), k)
            invariant
                n == self.kv().len(),
                sorted_kv(self.kv()),
                i <= n,
                forall|j: int| 0 <= j < i ==> seq_less(#[trigger] self.kv()[j].0, k@),
            decreases n - i,
        {
            proof {
                assert(self.kv()[i as int].0 == self.entries@[i as int].0@);
            }
            i = i + 1;
        }
        let found = i < n && str_eq(self.entries[i].0.as_str(), k);
        proof {
            let kv = self.kv();
            if i < n {
                assert(kv[i as int].0 == self.entries@[i as int].0@);
                if !found {
                    lemma_less_total(kv[i as int].0, k@);
                    assert(seq_less(k@, kv[i as int].0));
                    assert forall|j: int| i <= j < n implies seq_less(k@, #[trigger] kv[j].0) by {
                        if j > i {
                            lemma_less_transitive(k@, kv[i as int].0, kv[j].0);
                        }
                    }
                }
            }
            if found {
                assert(kv_has(kv, k@));
            } else {
                if kv_has(kv, k@) {
                    let j = choose|j: int| 0 <= j < kv.len() && #[trigger] kv[j].0 == k@;
                    lemma_less_irreflexive(k@);
                    if j < i {
                        assert(seq_less(kv[j].0, k@));
                    } else {
                        assert(seq_less(k@, kv[j].0));
                    }
                }
            }
        }
        (i, found)
    }

    /// Whether `k` is a key.
    pub fn contains_key(&self, k: &str) -> (r: bool)
        ensures
            r == self@.contains_key(k@),
            r == self.has(k@),
            sorted_kv(self.kv()),
    {
        let (_, found) = self.find(k);
        found
    }

    /// Looks up the value of `k`.
    pub fn get(&self, k: &str) -> (r: Option<&V>)
        ensures
            sorted_kv(self.kv()),
            match r {
                Some(v) => self@.contains_key(k@) && self@[k@] == *v,
                None => !self@.contains_key(k@),
            },
    {
        let (i, found) = self.find(k);
        if found {
            proof {
                lemma_kv_at(self.kv(), i as int);
            }
            Some(&self.entries[i].1)
        } else {
            None
        }
    }

    /// Inserts or replaces the value of `k`.
    pub fn insert(&mut self, k: String, v: V)
        ensures
            final(self)@ == old(self)@.insert(k@, v),
            sorted_kv(final(self).kv()),
            old(self).has(k@) ==> final(self).spec_len() == old(self).spec_len(),
            !old(self).has(k@) ==> final(self).spec_len() == old(self).spec_len() + 1,
    {
        let (i, found) = self.find(k.as_str());
        let ghost old_kv = self.kv();
        let ghost kk = k@;
        let mut entries: Vec<(String, V)> = Vec::new();
        std::mem::swap(&mut entries, &mut self.entries);
        if found {
            entries.set(i, (k, v));
            proof {
                assert(sorted_kv(entries@.map_values(|e: (String, V)| (e.0@, e.1)))) by {
                    let nkv = entries@.map_values(|e: (String, V)| (e.0@, e.1));
                    assert(nkv =~= old_kv.update(i as int, (kk, v)));
                    assert forall|a: int, b: int| 0 <= a < b < nkv.len() implies seq_less(
                        #[trigger] nkv[a].0,
                        #[trigger] nkv[b].0,
                    ) by {
                        assert(seq_less(old_kv[a].0, old_kv[b].0));
                    }
                }
            }
            self.entries = entries;
            proof {
                let nkv = self.kv();
                assert(nkv =~= old_kv.update(i as int, (kk, v)));
                assert(sorted_kv(nkv)) by {
                    assert forall|a: int, b: int| 0 <= a < b < nkv.len() implies seq_less(
                        #[trigger] nkv[a].0,
                        #[trigger] nkv[b].0,
                    ) by {
                        assert(seq_less(old_kv[a].0, old_kv[b].0));
                    }
                }
            }
        } else {
            entries.insert(i, (k, v));
            proof {
                let nkv = entries@.map_values(|e: (String, V)| (e.0@, e.1));
                assert(nkv =~= old_kv.insert(i as int, (kk, v)));
                assert(sorted_kv(nkv)) by {
                    assert forall|a: int, b: int| 0 <= a < b < nkv.len() implies seq_less(
                        #[trigger] nkv[a].0,
                        #[trigger] nkv[b].0,
                    ) by {
                        if b < i {
                            assert(seq_less(old_kv[a].0, old_kv[b].0));
                        } else if b == i {
                            assert(nkv[a] == old_kv[a]);
                        } else if a == i {
                            assert(nkv[b] == old_kv[b - 1]);
                        } else if a < i {
                            assert(nkv[a] == old_kv[a]);
                            assert(nkv[b] == old_kv[b - 1]);
                            lemma_less_transitive(old_kv[a].0, kk, old_kv[b - 1].0);
                        } else {
                            assert(seq_less(old_kv[a - 1].0, old_kv[b - 1].0));
                        }
                    }
                }
            }
            self.entries = entries;
        }
        proof {
            let nkv = self.kv();
            if found {
                assert(nkv =~= old_kv.update(i as int, (kk, v)));
            } else {
                assert(nkv =~= old_kv.insert(i as int, (kk, v)));
            }
            assert(self@ =~= old_kv_map_insert(old_kv, kk, v)) by {
                assert forall|key: Seq<char>| #[trigger] self@.contains_key(key) implies old_kv_map_insert(
                    old_kv,
                    kk,
                    v,
                ).contains_key(key) && self@[key] == old_kv_map_insert(old_kv, kk, v)[key] by {
                    let j = choose|j: int| 0 <= j < nkv.len() && #[trigger] nkv[j].0 == key;
                    lemma_kv_at(nkv, j);
                    assert(nkv[i as int].0 == kk);
                    if key == kk {
                        lemma_kv_unique(nkv, j, i as int);
                    } else {
                        let oj = if found || j < i { j } else { j - 1 };
                        assert(old_kv[oj] == nkv[j]);
                        lemma_kv_at(old_kv, oj);
                    }
                }
                assert forall|key: Seq<char>| #[trigger] old_kv_map_insert(old_kv, kk, v).contains_key(
                    key,
                ) implies self@.contains_key(key) by {
                    if key == kk {
                        assert(nkv[i as int].0 == kk);
                    } else {
                        let oj = choose|oj: int| 0 <= oj < old_kv.len() && #[trigger] old_kv[oj].0 == key;
                        let j = if found || oj < i { oj } else { oj + 1 };
                        assert(nkv[j] == old_kv[oj]);
                    }
                }
            }
        }
    }

    /// Removes `k`, returning its value if it was present.
    pub fn remove(&mut self, k: &str) -> (r: Option<V>)
        ensures
            final(self)@ == old(self)@.remove(k@),
            sorted_kv(final(self).kv()),
            match r {
                Some(v) => old(self)@.contains_key(k@) && old(self)@[k@] == v,
                None => !old(self)@.contains_key(k@),
            },
            old(self).has(k@) ==> final(self).spec_len() + 1 == old(self).spec_len(),
            !old(self).has(k@) ==> final(self).kv() == old(self).kv(),
    {
        let (i, found) = self.find(k);
        let ghost old_kv = self.kv();
        if !found {
            proof {
                assert(self@ =~= old(self)@.remove(k@));
            }
            return None;
        }
        proof {
            lemma_kv_at(old_kv, i as int);
        }
        let mut entries: Vec<(String, V)> = Vec::new();
        std::mem::swap(&mut entries, &mut self.entries);
        let e = entries.remove(i);
        proof {
            let nkv = entries@.map_values(|e: (String, V)| (e.0@, e.1));
            assert(nkv =~= old_kv.remove(i as int));
            assert(sorted_kv(nkv)) by {
                assert forall|a: int, b: int| 0 <= a < b < nkv.len() implies seq_less(
                    #[trigger] nkv[a].0,
                    #[trigger] nkv[b].0,
                ) by {
                    if b < i {
                        assert(seq_less(old_kv[a].0, old_kv[b].0));
                    } else if a < i {
                        assert(seq_less(old_kv[a].0, old_kv[b + 1].0));
                    } else {
                        assert(seq_less(old_kv[a + 1].0, old_kv[b + 1].0));
                    }
                }
            }
        }
        self.entries = entries;
        proof {
            let nkv = self.kv();
            assert(self@ =~= old(self)@.remove(k@)) by {
                assert forall|key: Seq<char>| #[trigger] self@.contains_key(key) implies old(
                    self,
                )@.remove(k@).contains_key(key) && self@[key] == old(self)@[key] by {
                    let j = choose|j: int| 0 <= j < nkv.len() && #[trigger] nkv[j].0 == key;
                    lemma_kv_at(nkv, j);
                    let oj = if j < i { j } else { j + 1 };
                    assert(old_kv[oj] == nkv[j]);
                    lemma_kv_at(old_kv, oj);
                    if key == k@ {
                        lemma_kv_unique(old_kv, oj, i as int);
                    }
                }
                assert forall|key: Seq<char>| #[trigger] old(self)@.remove(k@).contains_key(
                    key,
                ) implies self@.contains_key(key) by {
                    let oj = choose|oj: int| 0 <= oj < old_kv.len() && #[trigger] old_kv[oj].0 == key;
                    let j = if oj < i { oj } else { oj - 1 };
                    assert(nkv[j] == old_kv[oj]);
                }
            }
        }
        Some(e.1)
    }

    /// Appends an entry whose key is greater than every present key.
    pub fn push_ordered(&mut self, k: String, v: V)
        requires
            old(self).kv().len() == 0 || seq_less(old(self).kv().last().0, k@),
        ensures
            final(self).kv() == old(self).kv().push((k@, v)),
            sorted_kv(final(self).kv()),
    {
        proof {
            use_type_invariant(&*self);
        }
        let ghost old_kv = self.kv();
        let ghost kk = k@;
        let mut entries: Vec<(String, V)> = Vec::new();
        std::mem::swap(&mut entries, &mut self.entries);
        entries.push((k, v));
        proof {
            let nkv = entries@.map_values(|e: (String, V)| (e.0@, e.1));
            assert(nkv =~= old_kv.push((kk, v)));
            assert forall|a: int, b: int| 0 <= a < b < nkv.len() implies seq_less(
                #[trigger] nkv[a].0,
                #[trigger] nkv[b].0,
            ) by {
                if b < old_kv.len() {
                    assert(seq_less(old_kv[a].0, old_kv[b].0));
                } else if a < old_kv.len() - 1 {
                    assert(seq_less(old_kv[a].0, old_kv.last().0));
                    lemma_less_transitive(old_kv[a].0, old_kv.last().0, kk);
                }
            }
        }
        self.entries = entries;
    }
}

impl<V> IdMap<V> {
    /// Takes the entries apart, in increasing key order.
    pub fn into_entries(self) -> (r: Vec<(String, V)>)
        ensures
            r@.map_values(|e: (String, V)| (e.0@, e.1)) == self.kv(),
            sorted_kv(self.kv()),
    {
        proof {
            use_type_invariant(&self);
        }
        self.entries
    }
}

/// Whether two entry sequences have the same keys in the same order and
/// related values at each position.
pub open spec fn kv_related<A, B>(
    a: Seq<(Seq<char>, A)>,
    b: Seq<(Seq<char>, B)>,
    rel: spec_fn(A, B) -> bool,
) -> bool {
    &&& a.len() == b.len()
    &&& forall|i: int| 0 <= i < a.len() ==> #[trigger] b[i].0 == a[i].0 && rel(a[i].1, b[i].1)
}

/// The map of a sequence after an insertion, spelled for proofs.
pub open spec fn old_kv_map_insert<V>(kv: Seq<(Seq<char>, V)>, k: Seq<char>, v: V) -> Map<
    Seq<char>,
    V,
> {
    kv_map(kv).insert(k, v)
}

impl IdMap<String> {
    /// Replaces every value equal to `from` by `to`, keeping the keys.
    pub fn replace_values(&self, from: &str, to: &str) -> (r: IdMap<String>)
        ensures
            r@.dom() == self@.dom(),
            forall|k: Seq<char>| #[trigger] r@.contains_key(k) ==> r@[k]@ == (if self@[k]@ == from@ {
                to@
            } else {
                self@[k]@
            }),
    {
        let n = self.len();
        let mut out: IdMap<String> = IdMap::new();
        let mut i: usize = 0;
        while i < n
            invariant
                n == self.kv().len(),
                sorted_kv(self.kv()),
                i <= n,
                out.kv().len() == i,
                forall|j: int| 0 <= j < i ==> (#[trigger] out.kv()[j]).0 == self.kv()[j].0 && out.kv()[j].1@ == (if self.kv()[j].1@
                    == from@ {
                    to@
                } else {
                    self.kv()[j].1@
                }),
            decreases n - i,
        {
            let (k, v) = self.entry_at(i);
            let nv = if str_eq(v.as_str(), from) {
                String::from_str(to)
            } else {
                v.clone()
            };
            proof {
                if i > 0 {
                    assert(out.kv()[i - 1].0 == self.kv()[i - 1].0);
                    assert(seq_less(self.kv()[i - 1].0, self.kv()[i as int].0));
                    assert(out.kv().last() == out.kv()[i - 1]);
                }
            }
            out.push_ordered(k.clone(), nv);
            i = i + 1;
        }
        proof {
            let ok = out.kv();
            let sk = self.kv();
            assert forall|k: Seq<char>| out@.contains_key(k) <==> self@.contains_key(k) by {
                if kv_has(ok, k) {
                    let j = choose|j: int| 0 <= j < ok.len() && #[trigger] ok[j].0 == k;
                    assert(sk[j].0 == k);
                }
                if kv_has(sk, k) {
                    let j = choose|j: int| 0 <= j < sk.len() && #[trigger] sk[j].0 == k;
                    assert(ok[j].0 == k);
                }
            }
            assert(out@.dom() =~= self@.dom());
            assert forall|k: Seq<char>| #[trigger] out@.contains_key(k) implies out@[k]@ == (if self@[k]@ == from@ {
                to@
            } else {
                self@[k]@
            }) by {
                let j = choose|j: int| 0 <= j < ok.len() && #[trigger] ok[j].0 == k;
                lemma_kv_at(ok, j);
                assert(sk[j].0 == k);
                lemma_kv_at(sk, j);
            }
        }
        out
    }
}

impl<V: Copy> IdMap<V> {
    /// Copies a map of copyable values.
    pub fn copy(&self) -> (r: Self)
        ensures
            r.kv() == self.kv(),
            r@ == self@,
    {
        let n = self.len();
        let mut out: IdMap<V> = IdMap::new();
        let mut i: usize = 0;
        while i < n
            invariant
                n == self.kv().len(),
                sorted_kv(self.kv()),
                i <= n,
                out.kv() == self.kv().take(i as int),
            decreases n - i,
        {
            let (k, v) = self.entry_at(i);
            proof {
                if i > 0 {
                    assert(out.kv().last() == self.kv()[i - 1]);
                    assert(seq_less(self.kv()[i - 1].0, self.kv()[i as int].0));
                }
            }
            out.push_ordered(k.clone(), *v);
            proof {
                assert(self.kv().take(i + 1) =~= self.kv().take(i as int).push(self.kv()[i as int]));
            }
            i = i + 1;
        }
        proof {
            assert(self.kv().take(n as int) =~= self.kv());
        }
        out
    }
}

/// A value that can produce an independent copy of itself.
pub trait Duplicate: Sized {
    /// Whether `copy` holds the same content as `self`.
    spec fn same_content(&self, copy: &Self) -> bool;

    /// Returns an independent copy of the value.
    fn duplicate(&self) -> (r: Self)
        ensures
            self.same_content(&r),
    ;
}

impl Duplicate for String {
    open spec fn same_content(&self, copy: &Self) -> bool {
        *copy == *self
    }

    fn duplicate(&self) -> (r: Self) {
        self.clone()
    }
}

/// Whether table `b` holds, key by key in the same order, copies of the
/// entries of table `a`.
pub open spec fn table_copied<V: Duplicate>(a: IdMap<V>, b: IdMap<V>) -> bool {
    &&& b.keys_seq() == a.keys_seq()
    &&& b.kv().len() == a.kv().len()
    &&& forall|j: int| 0 <= j < a.kv().len() ==> a.kv()[j].1.same_content(&(#[trigger] b.kv()[j]).1)
}

impl<V: Duplicate> IdMap<V> {
    /// Copies every entry, keeping the keys in their order.
    pub fn duplicate_all(&self) -> (r: Self)
        ensures
            table_copied(*self, r),
    {
        let n = self.len();
        let mut out: IdMap<V> = IdMap::new();
        let mut i: usize = 0;
        while i < n
            invariant
                n == self.kv().len(),
                sorted_kv(self.kv()),
                i <= n,
                out.kv().len() == i,
                forall|j: int| 0 <= j < i ==> #[trigger] out.kv()[j].0 == self.kv()[j].0,
                forall|j: int| 0 <= j < i ==> self.kv()[j].1.same_content(&(#[trigger] out.kv()[j]).1),
            decreases n - i,
        {
            let (k, v) = self.entry_at(i);
            proof {
                if i > 0 {
                    assert(out.kv().last().0 == self.kv()[i - 1].0);
                    assert(seq_less(self.kv()[i - 1].0, self.kv()[i as int].0));
                }
            }
            out.push_ordered(k.clone(), v.duplicate());
            i = i + 1;
        }
        proof {
            assert(kv_keys(out.kv()) =~= kv_keys(self.kv()));
        }
        out
    }
}

} // verus!
