//! [`KeyedMap`]: values keyed by text, kept in ascending key order.
//!
//! A room keeps its devices and a home its rooms in one of these; the model
//! of a map is a `Map<Seq<char>, V>`, and its entries always enumerate that
//! map in ascending key order.

use vstd::prelude::*;

use crate::text::{
    lemma_text_lt_asymmetric, lemma_text_lt_irreflexive, lemma_text_lt_total,
    lemma_text_lt_transitive, str_eq, str_lt, text_lt,
};

verus! {

/// The keys of a sequence of entries.
pub open spec fn keys_of<V>(s: Seq<(String, V)>) -> Seq<Seq<char>> {
    s.map_values(|p: (String, V)| p.0@)
}

/// Every key precedes the next in the lexicographic order (so no key repeats).
pub open spec fn ascending(s: Seq<Seq<char>>) -> bool {
    forall|i: int, j: int| 0 <= i < j < s.len() ==> text_lt(#[trigger] s[i], #[trigger] s[j])
}

/// An index of an entry with key `k`.
pub open spec fn index_of_key<V>(s: Seq<(String, V)>, k: Seq<char>) -> int {
    choose|i: int| 0 <= i < s.len() && s[i].0@ == k
}

/// The map that a sequence of entries with distinct keys enumerates.
pub open spec fn pairs_map<V>(s: Seq<(String, V)>) -> Map<Seq<char>, V> {
    Map::new(
        |k: Seq<char>| exists|i: int| 0 <= i < s.len() && s[i].0@ == k,
        |k: Seq<char>| s[index_of_key(s, k)].1,
    )
}

/// The map built by putting each entry of `s`, in order, into an empty map
/// (a later entry replaces an earlier one with the same key).
pub open spec fn collected<V>(s: Seq<(String, V)>) -> Map<Seq<char>, V>
    decreases s.len(),
{
    if s.len() == 0 {
        Map::empty()
    } else {
        collected(s.drop_last()).insert(s.last().0@, s.last().1)
    }
}

/// Two entry sequences hold, at the same positions, the same keys and values
/// that `eqv` calls equal.
pub open spec fn entries_eq_by<V>(
    a: Seq<(String, V)>,
    b: Seq<(String, V)>,
    eqv: spec_fn(V, V) -> bool,
) -> bool {
    &&& a.len() == b.len()
    &&& forall|i: int| 0 <= i < a.len() ==> #[trigger] a[i].0@ == b[i].0@ && eqv(a[i].1, b[i].1)
}

/// Two maps have the same keys and, under each key, values that `eqv` calls equal.
pub open spec fn maps_eq_by<V>(
    a: Map<Seq<char>, V>,
    b: Map<Seq<char>, V>,
    eqv: spec_fn(V, V) -> bool,
) -> bool {
    &&& a.dom() == b.dom()
    &&& forall|k: Seq<char>| #[trigger] a.contains_key(k) ==> eqv(a[k], b[k])
}

/// The keys of `m` in ascending order.
pub open spec fn ascending_keys<V>(m: Map<Seq<char>, V>) -> Seq<Seq<char>> {
    choose|s: Seq<Seq<char>>|
        ascending(s) && forall|k: Seq<char>| s.contains(k) <==> m.dom().contains(k)
}

/// In an ascending sequence of entries, the entry at `i` is what the map holds for its key.
pub proof fn lemma_pairs_map_at<V>(s: Seq<(String, V)>, i: int)
    requires
        ascending(keys_of(s)),
        0 <= i < s.len(),
    ensures
        pairs_map(s).contains_key(s[i].0@),
        pairs_map(s)[s[i].0@] == s[i].1,
{
    let k = s[i].0@;
    assert(0 <= i < s.len() && s[i].0@ == k);
    let c = index_of_key(s, k);
    assert(pairs_map(s).contains_key(k));
    assert(pairs_map(s)[k] == s[c].1);
    if c != i {
        assert(keys_of(s)[c] == k && keys_of(s)[i] == k);
        if c < i {
            assert(text_lt(keys_of(s)[c], keys_of(s)[i]));
        } else {
            assert(text_lt(keys_of(s)[i], keys_of(s)[c]));
        }
        lemma_text_lt_irreflexive(k);
    }
}

/// An ascending sequence of entries enumerates `m` when every entry agrees with `m`
/// and every key of `m` has an entry.
pub proof fn lemma_pairs_map_is<V>(s: Seq<(String, V)>, m: Map<Seq<char>, V>)
    requires
        ascending(keys_of(s)),
        forall|i: int| 0 <= i < s.len() ==> m.contains_key(#[trigger] s[i].0@) && m[s[i].0@] == s[i].1,
        forall|k: Seq<char>| m.contains_key(k) ==> exists|i: int| 0 <= i < s.len() && #[trigger] s[i].0@ == k,
    ensures
        pairs_map(s) == m,
{
    assert forall|k: Seq<char>| #[trigger] pairs_map(s).contains_key(k) implies m.contains_key(k)
        && pairs_map(s)[k] == m[k] by {
        let c = index_of_key(s, k);
        assert(m.contains_key(s[c].0@));
    }
    assert forall|k: Seq<char>| #[trigger] m.contains_key(k) implies pairs_map(s).contains_key(k) by {
        let c = choose|c: int| 0 <= c < s.len() && #[trigger] s[c].0@ == k;
        assert(0 <= c < s.len() && s[c].0@ == k);
    }
    assert(pairs_map(s) =~= m);
}

/// The number of keys of the map equals the number of entries.
pub proof fn lemma_pairs_map_len<V>(s: Seq<(String, V)>)
    requires
        ascending(keys_of(s)),
    ensures
        pairs_map(s).dom().len() == s.len(),
        pairs_map(s).dom().finite(),
{
    let ks = keys_of(s);
    assert forall|i: int, j: int| 0 <= i < ks.len() && 0 <= j < ks.len() && i != j implies ks[i]
        != ks[j] by {
        if i < j {
            assert(text_lt(ks[i], ks[j]));
        } else {
            assert(text_lt(ks[j], ks[i]));
        }
        if ks[i] == ks[j] {
            lemma_text_lt_irreflexive(ks[i]);
        }
    }
    assert(ks.no_duplicates());
    ks.unique_seq_to_set();
    assert forall|k: Seq<char>| #[trigger] pairs_map(s).dom().contains(k) <==> ks.to_set().contains(k) by {
        if pairs_map(s).dom().contains(k) {
            let c = choose|c: int| 0 <= c < s.len() && s[c].0@ == k;
            assert(ks[c] == k);
        }
        if ks.to_set().contains(k) {
            let c = choose|c: int| 0 <= c < ks.len() && ks[c] == k;
            assert(s[c].0@ == k);
        }
    }
    assert(pairs_map(s).dom() =~= ks.to_set());
}

/// Two ascending sequences with the same elements are equal.
pub proof fn lemma_ascending_unique(a: Seq<Seq<char>>, b: Seq<Seq<char>>)
    requires
        ascending(a),
        ascending(b),
        forall|k: Seq<char>| a.contains(k) <==> b.contains(k),
    ensures
        a == b,
    decreases a.len(),
{
    if a.len() == 0 {
        if b.len() > 0 {
            assert(b.contains(b[0]));
        }
        assert(a =~= b);
    } else if b.len() == 0 {
        assert(a.contains(a[0]));
    } else {
        assert(a.contains(a[0]));
        assert(b.contains(b[0]));
        let i = choose|i: int| 0 <= i < b.len() && b[i] == a[0];
        let j = choose|j: int| 0 <= j < a.len() && a[j] == b[0];
        if a[0] != b[0] {
            assert(i > 0 && j > 0);
            assert(text_lt(b[0], b[i]));
            assert(text_lt(a[0], a[j]));
            lemma_text_lt_asymmetric(a[0], b[0]);
        }
        let ta = a.drop_first();
        let tb = b.drop_first();
        assert(ascending(ta)) by {
            assert forall|x: int, y: int| 0 <= x < y < ta.len() implies text_lt(#[trigger] ta[x], #[trigger] ta[y]) by {
                assert(text_lt(a[x + 1], a[y + 1]));
            }
        }
        assert(ascending(tb)) by {
            assert forall|x: int, y: int| 0 <= x < y < tb.len() implies text_lt(#[trigger] tb[x], #[trigger] tb[y]) by {
                assert(text_lt(b[x + 1], b[y + 1]));
            }
        }
        assert forall|k: Seq<char>| ta.contains(k) <==> tb.contains(k) by {
            if ta.contains(k) {
                let x = choose|x: int| 0 <= x < ta.len() && ta[x] == k;
                assert(a.contains(k) && a[x + 1] == k);
                assert(text_lt(a[0], a[x + 1]));
                let y = choose|y: int| 0 <= y < b.len() && b[y] == k;
                if y == 0 {
                    lemma_text_lt_irreflexive(k);
                }
                assert(tb[y - 1] == k);
            }
            if tb.contains(k) {
                let x = choose|x: int| 0 <= x < tb.len() && tb[x] == k;
                assert(b.contains(k) && b[x + 1] == k);
                assert(text_lt(b[0], b[x + 1]));
                let y = choose|y: int| 0 <= y < a.len() && a[y] == k;
                if y == 0 {
                    lemma_text_lt_irreflexive(k);
                }
                assert(ta[y - 1] == k);
            }
        }
        lemma_ascending_unique(ta, tb);
        assert(a =~= seq![a[0]] + ta);
        assert(b =~= seq![b[0]] + tb);
    }
}

/// The keys of an ascending sequence of entries are the ascending keys of its map.
pub proof fn lemma_keys_are_ascending_keys<V>(s: Seq<(String, V)>)
    requires
        ascending(keys_of(s)),
    ensures
        keys_of(s) == ascending_keys(pairs_map(s)),
{
    let ks = keys_of(s);
    let m = pairs_map(s);
    assert forall|k: Seq<char>| ks.contains(k) <==> m.dom().contains(k) by {
        if ks.contains(k) {
            let c = choose|c: int| 0 <= c < ks.len() && ks[c] == k;
            assert(s[c].0@ == k);
        }
        if m.dom().contains(k) {
            let c = choose|c: int| 0 <= c < s.len() && s[c].0@ == k;
            assert(ks[c] == k);
        }
    }
    let t = ascending_keys(m);
    assert(ascending(t) && forall|k: Seq<char>| t.contains(k) <==> m.dom().contains(k));
    lemma_ascending_unique(ks, t);
}

/// Values keyed by text, kept in ascending key order.
pub struct KeyedMap<V> {
    entries: Vec<(String, V)>,
}

impl<V> View for KeyedMap<V> {
    type V = Map<Seq<char>, V>;

    closed spec fn view(&self) -> Map<Seq<char>, V> {
        pairs_map(self.entries@)
    }
}

impl<V> KeyedMap<V> {
    /// The entries, in order.
    pub closed spec fn pairs(&self) -> Seq<(String, V)> {
        self.entries@
    }

    /// The entries are in strictly ascending key order.
    pub closed spec fn wf(&self) -> bool {
        ascending(keys_of(self.entries@))
    }

    /// The entries enumerate the map in ascending key order.
    pub proof fn lemma_enumerates(&self)
        requires
            self.wf(),
        ensures
            keys_of(self.pairs()) == ascending_keys(self@),
            ascending(keys_of(self.pairs())),
            self@.dom().finite(),
            self@.dom().len() == self.pairs().len(),
            forall|i: int|
                0 <= i < self.pairs().len() ==> self@.contains_key(#[trigger] self.pairs()[i].0@)
                    && self@[self.pairs()[i].0@] == self.pairs()[i].1,
    {
        lemma_keys_are_ascending_keys(self.entries@);
        lemma_pairs_map_len(self.entries@);
        assert forall|i: int| 0 <= i < self.pairs().len() implies self@.contains_key(
            #[trigger] self.pairs()[i].0@,
        ) && self@[self.pairs()[i].0@] == self.pairs()[i].1 by {
            lemma_pairs_map_at(self.entries@, i);
        }
    }

    /// Maps with the same keys in the same order are well formed together
    /// and have the same key set.
    pub proof fn lemma_same_keys(&self, other: &KeyedMap<V>)
        requires
            keys_of(self.pairs()) == keys_of(other.pairs()),
        ensures
            self.wf() == other.wf(),
            self@.dom() == other@.dom(),
    {
        let a = self.entries@;
        let b = other.entries@;
        assert(a.len() == keys_of(a).len() && b.len() == keys_of(b).len());
        assert forall|k: Seq<char>| #[trigger] self@.dom().contains(k) <==> other@.dom().contains(k) by {
            if self@.dom().contains(k) {
                let x = choose|x: int| 0 <= x < a.len() && a[x].0@ == k;
                assert(keys_of(a)[x] == keys_of(b)[x]);
                assert(b[x].0@ == k);
            }
            if other@.dom().contains(k) {
                let x = choose|x: int| 0 <= x < b.len() && b[x].0@ == k;
                assert(keys_of(a)[x] == keys_of(b)[x]);
                assert(a[x].0@ == k);
            }
        }
        assert(self@.dom() =~= other@.dom());
    }

    /// The number of entries.
    pub fn size(&self) -> (r: usize)
        ensures
            r == self.pairs().len(),
    {
        self.entries.len()
    }

    /// The entry at position `i`.
    pub fn slot(&self, i: usize) -> (r: &(String, V))
        requires
            i < self.pairs().len(),
        ensures
            *r == self.pairs()[i as int],
    {
        &self.entries[i]
    }

    /// An empty map.
    pub fn new() -> (r: KeyedMap<V>)
        ensures
            r.wf(),
            r@ == Map::<Seq<char>, V>::empty(),
    {
        let r = KeyedMap { entries: Vec::new() };
        assert(r@ =~= Map::<Seq<char>, V>::empty());
        r
    }

    /// Where `key` is or would go: the first entry whose key does not precede it.
    fn locate(&self, key: &str) -> (r: (usize, bool))
        requires
            self.wf(),
        ensures
            r.0 <= self.entries@.len(),
            forall|i: int| 0 <= i < r.0 ==> text_lt(#[trigger] keys_of(self.entries@)[i], key@),
            forall|i: int|
                r.0 <= i < self.entries@.len() ==> !text_lt(
                    #[trigger] keys_of(self.entries@)[i],
                    key@,
                ),
            r.1 == (r.0 < self.entries@.len() && self.entries@[r.0 as int].0@ == key@),
            r.1 == self@.contains_key(key@),
            !r.1 ==> forall|i: int|
                r.0 <= i < self.entries@.len() ==> text_lt(key@, #[trigger] keys_of(self.entries@)[i]),
    {
        let ghost ks = keys_of(self.entries@);
        let n = self.entries.len();
        let mut i: usize = 0;
        while i < n && str_lt(self.entries[i].0.as_str(), key)
            invariant
                n == self.entries@.len(),
                ks == keys_of(self.entries@),
                i <= n,
                forall|x: int| 0 <= x < i ==> text_lt(#[trigger] ks[x], key@),
            decreases n - i,
        {
            i = i + 1;
        }
        proof {
            assert forall|x: int| i <= x < n implies !text_lt(#[trigger] ks[x], key@) by {
                if x > i && text_lt(ks[x], key@) {
                    assert(text_lt(ks[i as int], ks[x]));
                    lemma_text_lt_transitive(ks[i as int], ks[x], key@);
                }
            }
        }
        let found = i < n && str_eq(self.entries[i].0.as_str(), key);
        proof {
            if self@.contains_key(key@) {
                let c = choose|c: int| 0 <= c < self.entries@.len() && self.entries@[c].0@ == key@;
                assert(ks[c] == key@);
                if c < i {
                    lemma_text_lt_irreflexive(key@);
                } else if c > i {
                    assert(text_lt(ks[i as int], ks[c]));
                }
            }
            if found {
                assert(self.entries@[i as int].0@ == key@);
            }
            if !found {
                assert forall|x: int| i <= x < n implies text_lt(key@, #[trigger] ks[x]) by {
                    if x == i {
                        lemma_text_lt_total(ks[x], key@);
                    } else {
                        assert(text_lt(ks[i as int], ks[x]));
                        if ks[i as int] != key@ {
                            lemma_text_lt_total(ks[i as int], key@);
                            lemma_text_lt_transitive(key@, ks[i as int], ks[x]);
                        }
                    }
                }
            }
        }
        (i, found)
    }

    /// The number of entries.
    pub fn len(&self) -> (r: usize)
        requires
            self.wf(),
        ensures
            r == self@.len(),
    {
        proof {
            lemma_pairs_map_len(self.entries@);
        }
        self.entries.len()
    }

    /// Whether the map is empty.
    pub fn is_empty(&self) -> (r: bool)
        requires
            self.wf(),
        ensures
            r == (self@.len() == 0),
    {
        proof {
            lemma_pairs_map_len(self.entries@);
        }
        self.entries.len() == 0
    }

    /// The value under `key`, if any.
    pub fn get(&self, key: &str) -> (r: Option<&V>)
        requires
            self.wf(),
        ensures
            match r {
                Some(v) => self@.contains_key(key@) && *v == self@[key@],
                None => !self@.contains_key(key@),
            },
    {
        let (i, found) = self.locate(key);
        if found {
            proof {
                lemma_pairs_map_at(self.entries@, i as int);
            }
            Some(&self.entries[i].1)
        } else {
            None
        }
    }

    /// The value under `key`, if any, for change in place.
    pub fn get_mut(&mut self, key: &str) -> (r: Option<&mut V>)
        requires
            old(self).wf(),
        ensures
            match r {
                Some(v) => {
                    &&& old(self)@.contains_key(key@)
                    &&& *v == old(self)@[key@]
                    &&& final(self).wf()
                    &&& final(self)@ == old(self)@.insert(key@, *final(v))
                },
                None => !old(self)@.contains_key(key@) && *final(self) == *old(self),
            },
    {
        let (i, found) = self.locate(key);
        if found {
            proof {
                lemma_pairs_map_at(self.entries@, i as int);
            }
            let ghost s = self.entries@;
            let pair = &mut self.entries[i];
            let slot = &mut pair.1;
            proof {
                let t = s.update(i as int, (s[i as int].0, *final(slot)));
                assert(keys_of(t) =~= keys_of(s));
                let m = pairs_map(s).insert(key@, *final(slot));
                assert forall|x: int| 0 <= x < t.len() implies m.contains_key(#[trigger] t[x].0@)
                    && m[t[x].0@] == t[x].1 by {
                    lemma_pairs_map_at(s, x);
                    if x != i {
                        assert(keys_of(s)[x] != key@) by {
                            if x < i {
                                assert(text_lt(keys_of(s)[x], keys_of(s)[i as int]));
                            } else {
                                assert(text_lt(keys_of(s)[i as int], keys_of(s)[x]));
                            }
                            lemma_text_lt_irreflexive(key@);
                        }
                    }
                }
                assert forall|k: Seq<char>| m.contains_key(k) implies exists|x: int|
                    0 <= x < t.len() && #[trigger] t[x].0@ == k by {
                    if k == key@ {
                        assert(t[i as int].0@ == k);
                    } else {
                        let c = choose|c: int| 0 <= c < s.len() && s[c].0@ == k;
                        assert(t[c].0@ == k);
                    }
                }
                lemma_pairs_map_is(t, m);
            }
            Some(slot)
        } else {
            None
        }
    }

    /// Puts `value` under `key`; gives back the value it replaces, if any.
    pub fn insert(&mut self, key: String, value: V) -> (r: Option<V>)
        requires
            old(self).wf(),
        ensures
            final(self).wf(),
            final(self)@ == old(self)@.insert(key@, value),
            match r {
                Some(v) => old(self)@.contains_key(key@) && v == old(self)@[key@],
                None => !old(self)@.contains_key(key@),
            },
    {
        let (i, found) = self.locate(key.as_str());
        let ghost s = self.entries@;
        let ghost k = key@;
        let ghost m = pairs_map(s).insert(k, value);
        if found {
            proof {
                lemma_pairs_map_at(s, i as int);
            }
            let old_entry = self.entries.remove(i);
            self.entries.insert(i, (key, value));
            proof {
                let t = self.entries@;
                assert(t =~= s.update(i as int, (t[i as int].0, value)));
                assert(keys_of(t) =~= keys_of(s));
                assert forall|x: int| 0 <= x < t.len() implies m.contains_key(#[trigger] t[x].0@)
                    && m[t[x].0@] == t[x].1 by {
                    lemma_pairs_map_at(s, x);
                    if x != i {
                        assert(keys_of(s)[x] != k) by {
                            if x < i {
                                assert(text_lt(keys_of(s)[x], keys_of(s)[i as int]));
                            } else {
                                assert(text_lt(keys_of(s)[i as int], keys_of(s)[x]));
                            }
                            lemma_text_lt_irreflexive(k);
                        }
                    }
                }
                assert forall|q: Seq<char>| m.contains_key(q) implies exists|x: int|
                    0 <= x < t.len() && #[trigger] t[x].0@ == q by {
                    if q == k {
                        assert(t[i as int].0@ == q);
                    } else {
                        let c = choose|c: int| 0 <= c < s.len() && s[c].0@ == q;
                        assert(t[c].0@ == q);
                    }
                }
                lemma_pairs_map_is(t, m);
            }
            Some(old_entry.1)
        } else {
            self.entries.insert(i, (key, value));
            proof {
                let t = self.entries@;
                let ks = keys_of(s);
                let kt = keys_of(t);
                assert(kt =~= ks.insert(i as int, k));
                assert forall|x: int, y: int| 0 <= x < y < kt.len() implies text_lt(
                    #[trigger] kt[x],
                    #[trigger] kt[y],
                ) by {
                    if y < i {
                        assert(text_lt(ks[x], ks[y]));
                    } else if y == i {
                        assert(text_lt(ks[x], k));
                    } else if x < i {
                        assert(text_lt(ks[x], k));
                        assert(text_lt(k, ks[y - 1]));
                        lemma_text_lt_transitive(ks[x], k, ks[y - 1]);
                    } else if x == i {
                        assert(text_lt(k, ks[y - 1]));
                    } else {
                        assert(text_lt(ks[x - 1], ks[y - 1]));
                    }
                }
                assert forall|x: int| 0 <= x < t.len() implies m.contains_key(#[trigger] t[x].0@)
                    && m[t[x].0@] == t[x].1 by {
                    if x < i {
                        lemma_pairs_map_at(s, x);
                        assert(t[x] == s[x]);
                        assert(text_lt(ks[x], k));
                        if ks[x] == k {
                            lemma_text_lt_irreflexive(k);
                        }
                    } else if x > i {
                        lemma_pairs_map_at(s, x - 1);
                        assert(t[x] == s[x - 1]);
                        assert(text_lt(k, ks[x - 1]));
                        if ks[x - 1] == k {
                            lemma_text_lt_irreflexive(k);
                        }
                    }
                }
                assert forall|q: Seq<char>| m.contains_key(q) implies exists|x: int|
                    0 <= x < t.len() && #[trigger] t[x].0@ == q by {
                    if q == k {
                        assert(t[i as int].0@ == q);
                    } else {
                        let c = choose|c: int| 0 <= c < s.len() && s[c].0@ == q;
                        if c < i {
                            assert(t[c].0@ == q);
                        } else {
                            assert(t[c + 1].0@ == q);
                        }
                    }
                }
                lemma_pairs_map_is(t, m);
            }
            None
        }
    }

    /// Removes the entry under `key`; gives back its value, if there was one.
    pub fn remove(&mut self, key: &str) -> (r: Option<V>)
        requires
            old(self).wf(),
        ensures
            final(self).wf(),
            final(self)@ == old(self)@.remove(key@),
            match r {
                Some(v) => old(self)@.contains_key(key@) && v == old(self)@[key@],
                None => !old(self)@.contains_key(key@),
            },
    {
        let (i, found) = self.locate(key);
        let ghost s = self.entries@;
        let ghost k = key@;
        let ghost m = pairs_map(s).remove(k);
        if found {
            proof {
                lemma_pairs_map_at(s, i as int);
            }
            let old_entry = self.entries.remove(i);
            proof {
                let t = self.entries@;
                let ks = keys_of(s);
                let kt = keys_of(t);
                assert(kt =~= ks.remove(i as int));
                assert forall|x: int, y: int| 0 <= x < y < kt.len() implies text_lt(
                    #[trigger] kt[x],
                    #[trigger] kt[y],
                ) by {
                    if y < i {
                        assert(text_lt(ks[x], ks[y]));
                    } else if x < i {
                        assert(text_lt(ks[x], ks[y + 1]));
                    } else {
                        assert(text_lt(ks[x + 1], ks[y + 1]));
                    }
                }
                assert forall|x: int| 0 <= x < t.len() implies m.contains_key(#[trigger] t[x].0@)
                    && m[t[x].0@] == t[x].1 by {
                    if x < i {
                        lemma_pairs_map_at(s, x);
                        assert(t[x] == s[x]);
                        assert(text_lt(ks[x], ks[i as int]));
                        if ks[x] == k {
                            lemma_text_lt_irreflexive(k);
                        }
                    } else {
                        lemma_pairs_map_at(s, x + 1);
                        assert(t[x] == s[x + 1]);
                        assert(text_lt(ks[i as int], ks[x + 1]));
                        if ks[x + 1] == k {
                            lemma_text_lt_irreflexive(k);
                        }
                    }
                }
                assert forall|q: Seq<char>| m.contains_key(q) implies exists|x: int|
                    0 <= x < t.len() && #[trigger] t[x].0@ == q by {
                    let c = choose|c: int| 0 <= c < s.len() && s[c].0@ == q;
                    if c < i {
                        assert(t[c].0@ == q);
                    } else {
                        assert(c != i);
                        assert(t[c - 1].0@ == q);
                    }
                }
                lemma_pairs_map_is(t, m);
            }
            Some(old_entry.1)
        } else {
            proof {
                assert(pairs_map(s) =~= m);
            }
            None
        }
    }

    /// The entries in ascending key order.
    pub fn entries(&self) -> (r: &[(String, V)])
        requires
            self.wf(),
        ensures
            r@ == self.pairs(),
            keys_of(r@) == ascending_keys(self@),
            ascending(keys_of(r@)),
            r@.len() == self@.len(),
            forall|i: int|
                0 <= i < r@.len() ==> self@.contains_key(#[trigger] r@[i].0@) && self@[r@[i].0@]
                    == r@[i].1,
    {
        proof {
            self.lemma_enumerates();
        }
        self.entries.as_slice()
    }

    /// The map built from `items`, a later item replacing an earlier one with the same key.
    pub fn from_pairs(items: Vec<(String, V)>) -> (r: KeyedMap<V>)
        ensures
            r.wf(),
            r@ == collected(items@),
    {
        let ghost all = items@;
        let mut rest = items;
        let mut map = KeyedMap::new();
        let ghost mut i: int = 0;
        assert(all.take(0) =~= Seq::<(String, V)>::empty());
        while rest.len() > 0
            invariant
                0 <= i <= all.len(),
                rest@ == all.skip(i),
                map.wf(),
                map@ == collected(all.take(i)),
            decreases rest.len(),
        {
            let (k, v) = rest.remove(0);
            proof {
                assert(all.take(i + 1).drop_last() =~= all.take(i));
                assert(all.take(i + 1).last() == all[i]);
                i = i + 1;
                assert(rest@ =~= all.skip(i));
            }
            map.insert(k, v);
        }
        assert(all.take(i) =~= all);
        map
    }
}

impl<V> KeyedMap<V> {
    /// For well-formed maps, equal entries at the same positions means the
    /// same keys with equal values under each.
    pub proof fn lemma_entries_eq(&self, other: &KeyedMap<V>, eqv: spec_fn(V, V) -> bool)
        requires
            self.wf(),
            other.wf(),
        ensures
            entries_eq_by(self.pairs(), other.pairs(), eqv) == maps_eq_by(self@, other@, eqv),
    {
        self.lemma_enumerates();
        other.lemma_enumerates();
        let a = self.entries@;
        let b = other.entries@;
        if maps_eq_by(self@, other@, eqv) {
            assert forall|k: Seq<char>| keys_of(a).contains(k) <==> keys_of(b).contains(k) by {
                if keys_of(a).contains(k) {
                    let x = choose|x: int| 0 <= x < a.len() && keys_of(a)[x] == k;
                    assert(self@.contains_key(a[x].0@));
                    let y = choose|y: int| 0 <= y < b.len() && b[y].0@ == k;
                    assert(keys_of(b)[y] == k);
                }
                if keys_of(b).contains(k) {
                    let x = choose|x: int| 0 <= x < b.len() && keys_of(b)[x] == k;
                    assert(other@.contains_key(b[x].0@));
                    let y = choose|y: int| 0 <= y < a.len() && a[y].0@ == k;
                    assert(keys_of(a)[y] == k);
                }
            }
            lemma_ascending_unique(keys_of(a), keys_of(b));
            assert forall|i: int| 0 <= i < a.len() implies #[trigger] a[i].0@ == b[i].0@ && eqv(a[i].1, b[i].1) by {
                assert(keys_of(a)[i] == keys_of(b)[i]);
                lemma_pairs_map_at(a, i);
                lemma_pairs_map_at(b, i);
            }
        }
        if entries_eq_by(a, b, eqv) {
            assert(keys_of(a) =~= keys_of(b));
            assert forall|k: Seq<char>| #[trigger] self@.dom().contains(k) <==> other@.dom().contains(k) by {
                if self@.dom().contains(k) {
                    let x = choose|x: int| 0 <= x < a.len() && a[x].0@ == k;
                    assert(b[x].0@ == k);
                }
                if other@.dom().contains(k) {
                    let x = choose|x: int| 0 <= x < b.len() && b[x].0@ == k;
                    assert(a[x].0@ == k);
                }
            }
            assert(self@.dom() =~= other@.dom());
            assert forall|k: Seq<char>| #[trigger] self@.contains_key(k) implies eqv(self@[k], other@[k]) by {
                let x = choose|x: int| 0 <= x < a.len() && a[x].0@ == k;
                lemma_pairs_map_at(a, x);
                lemma_pairs_map_at(b, x);
            }
        }
    }
}

impl<V: Clone> Clone for KeyedMap<V> {
    /// The same keys, each value cloned.
    fn clone(&self) -> (r: KeyedMap<V>)
        ensures
            keys_of(r.pairs()) == keys_of(self.pairs()),
            forall|i: int|
                0 <= i < self.pairs().len() ==> cloned::<V>(self.pairs()[i].1, #[trigger] r.pairs()[i].1),
    {
        let n = self.entries.len();
        let mut out: Vec<(String, V)> = Vec::new();
        let mut i: usize = 0;
        while i < n
            invariant
                n == self.entries@.len(),
                i <= n,
                out@.len() == i,
                forall|j: int| 0 <= j < i ==> #[trigger] out@[j].0@ == self.entries@[j].0@,
                forall|j: int| 0 <= j < i ==> cloned::<V>(self.entries@[j].1, #[trigger] out@[j].1),
            decreases n - i,
        {
            let k = self.entries[i].0.clone();
            let v = self.entries[i].1.clone();
            out.push((k, v));
            i = i + 1;
        }
        let r = KeyedMap { entries: out };
        assert(keys_of(r.pairs()) =~= keys_of(self.pairs()));
        r
    }
}

} // verus!
