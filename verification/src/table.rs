//! Maps kept in key order.
//!
//! A [`Table`] is a finite map whose entries can be walked in ascending key
//! order; a [`Group`] is a finite set with the same property.

use crate::text;
use vstd::prelude::*;

verus! {

/// A type whose values can key a table: its views are totally ordered.
pub trait Key: View + Sized {
    /// Whether `a` stands strictly before `b`.
    spec fn before(a: Self::V, b: Self::V) -> bool;

    proof fn irreflexive(a: Self::V)
        ensures
            !Self::before(a, a),
    ;

    proof fn transitive(a: Self::V, b: Self::V, c: Self::V)
        requires
            Self::before(a, b),
            Self::before(b, c),
        ensures
            Self::before(a, c),
    ;

    proof fn total(a: Self::V, b: Self::V)
        ensures
            Self::before(a, b) || Self::before(b, a) || a == b,
    ;

    fn precedes(&self, other: &Self) -> (r: bool)
        ensures
            r == Self::before(self@, other@),
    ;
}

impl Key for String {
    open spec fn before(a: Seq<char>, b: Seq<char>) -> bool {
        text::before(a, b)
    }

    proof fn irreflexive(a: Seq<char>) {
        text::lemma_before_irreflexive(a);
    }

    proof fn transitive(a: Seq<char>, b: Seq<char>, c: Seq<char>) {
        text::lemma_before_transitive(a, b, c);
    }

    proof fn total(a: Seq<char>, b: Seq<char>) {
        text::lemma_before_total(a, b);
    }

    fn precedes(&self, other: &Self) -> (r: bool) {
        text::precedes(self.as_str(), other.as_str())
    }
}

/// Pairs of texts are ordered by the first text, then by the second.
impl Key for (String, String) {
    open spec fn before(a: (Seq<char>, Seq<char>), b: (Seq<char>, Seq<char>)) -> bool {
        text::before(a.0, b.0) || a.0 == b.0 && text::before(a.1, b.1)
    }

    proof fn irreflexive(a: (Seq<char>, Seq<char>)) {
        text::lemma_before_irreflexive(a.0);
        text::lemma_before_irreflexive(a.1);
    }

    proof fn transitive(
        a: (Seq<char>, Seq<char>),
        b: (Seq<char>, Seq<char>),
        c: (Seq<char>, Seq<char>),
    ) {
        if text::before(a.0, b.0) && text::before(b.0, c.0) {
            text::lemma_before_transitive(a.0, b.0, c.0);
        }
        if a.0 == b.0 && b.0 == c.0 {
            text::lemma_before_irreflexive(a.0);
            text::lemma_before_transitive(a.1, b.1, c.1);
        }
    }

    proof fn total(a: (Seq<char>, Seq<char>), b: (Seq<char>, Seq<char>)) {
        text::lemma_before_total(a.0, b.0);
        text::lemma_before_total(a.1, b.1);
    }

    fn precedes(&self, other: &Self) -> (r: bool) {
        if text::precedes(self.0.as_str(), other.0.as_str()) {
            true
        } else {
            text::same(self.0.as_str(), other.0.as_str()) && text::precedes(
                self.1.as_str(),
                other.1.as_str(),
            )
        }
    }
}

// --------------------------------------------------------------------------
// Entries in key order
// --------------------------------------------------------------------------

/// The keys of `s` are strictly ascending.
pub open spec fn ascending<K: Key, W>(s: Seq<(K::V, W)>) -> bool {
    forall|i: int, j: int|
        0 <= i < j < s.len() ==> K::before((#[trigger] s[i]).0, (#[trigger] s[j]).0)
}

/// `k` is the key of entry `i`.
pub open spec fn keyed<A, W>(s: Seq<(A, W)>, i: int, k: A) -> bool {
    0 <= i < s.len() && s[i].0 == k
}

/// The map with the entries of `s`.
pub open spec fn map_of<A, W>(s: Seq<(A, W)>) -> Map<A, W> {
    Map::new(
        |k: A| exists|i: int| keyed(s, i, k),
        |k: A|
            {
                let i = choose|i: int| keyed(s, i, k);
                s[i].1
            },
    )
}

/// The entries of a finite map in ascending key order.
pub open spec fn items_of<K: Key, W>(m: Map<K::V, W>) -> Seq<(K::V, W)> {
    choose|s: Seq<(K::V, W)>| ascending::<K, W>(s) && map_of(s) == m
}

/// `s` lists the entries of `m` in ascending key order.
pub open spec fn lists<K: Key, W>(s: Seq<(K::V, W)>, m: Map<K::V, W>) -> bool {
    ascending::<K, W>(s) && map_of(s) == m
}

/// A listing holds exactly the entries of its map.
pub proof fn lemma_lists<K: Key, W>(s: Seq<(K::V, W)>, m: Map<K::V, W>)
    requires
        lists::<K, W>(s, m),
    ensures
        s == items_of::<K, W>(m),
        m.len() == s.len(),
        m.dom().finite(),
        forall|i: int|
            0 <= i < s.len() ==> m.contains_key((#[trigger] s[i]).0) && m[s[i].0] == s[i].1,
        forall|k: K::V| #[trigger]
            m.contains_key(k) ==> exists|i: int| 0 <= i < s.len() && (#[trigger] s[i]).0 == k,
{
    lemma_items_of::<K, W>(s);
    lemma_map_of::<K, W>(s);
    assert forall|k: K::V| #[trigger] m.contains_key(k) implies exists|i: int|
        0 <= i < s.len() && (#[trigger] s[i]).0 == k by {
        let i = choose|i: int| keyed(s, i, k);
        assert(s[i].0 == k);
    }
}

proof fn lemma_map_of<K: Key, W>(s: Seq<(K::V, W)>)
    requires
        ascending::<K, W>(s),
    ensures
        forall|i: int|
            0 <= i < s.len() ==> map_of(s).contains_key((#[trigger] s[i]).0) && map_of(s)[s[i].0]
                == s[i].1,
        forall|k: K::V| #[trigger]
            map_of(s).contains_key(k) ==> exists|i: int| #[trigger] keyed(s, i, k),
        map_of(s).dom().finite(),
        map_of(s).len() == s.len(),
{
    let keys = s.map_values(|e: (K::V, W)| e.0);
    assert forall|i: int| 0 <= i < s.len() implies map_of(s).contains_key((#[trigger] s[i]).0)
        && map_of(s)[s[i].0] == s[i].1 by {
        let k = s[i].0;
        assert(keyed(s, i, k));
        let j = choose|j: int| keyed(s, j, k);
        K::irreflexive(k);
        assert(i == j);
    }
    assert(keys.no_duplicates()) by {
        assert forall|i: int, j: int| 0 <= i < keys.len() && 0 <= j < keys.len() && i != j implies keys[i]
            != keys[j] by {
            K::irreflexive(s[i].0);
            if i < j {
                assert(K::before(s[i].0, s[j].0));
            } else {
                assert(K::before(s[j].0, s[i].0));
            }
        }
    }
    keys.unique_seq_to_set();
    assert(map_of(s).dom() =~= keys.to_set()) by {
        assert forall|k: K::V| map_of(s).dom().contains(k) implies keys.to_set().contains(k) by {
            let i = choose|i: int| keyed(s, i, k);
            assert(keys[i] == k);
        }
        assert forall|k: K::V| keys.to_set().contains(k) implies map_of(s).dom().contains(k) by {
            let i = choose|i: int| 0 <= i < keys.len() && keys[i] == k;
            assert(keyed(s, i, k));
        }
    }
    vstd::seq_lib::seq_to_set_is_finite(keys);
}

/// A map has one listing in key order.
pub proof fn lemma_items_unique<K: Key, W>(a: Seq<(K::V, W)>, b: Seq<(K::V, W)>)
    requires
        ascending::<K, W>(a),
        ascending::<K, W>(b),
        map_of(a) == map_of(b),
    ensures
        a == b,
    decreases a.len(),
{
    lemma_map_of::<K, W>(a);
    lemma_map_of::<K, W>(b);
    if a.len() > 0 {
        let n = a.len() - 1;
        assert(a.len() == b.len());
        let x = a[n].0;
        let y = b[n].0;
        assert(map_of(b).contains_key(x));
        assert(map_of(a).contains_key(y));
        let i = choose|i: int| keyed(b, i, x);
        let j = choose|j: int| keyed(a, j, y);
        if i < n && j < n {
            assert(K::before(b[i].0, b[n].0));
            assert(K::before(a[j].0, a[n].0));
            K::transitive(x, y, x);
            K::irreflexive(x);
        }
        assert(x == y);
        assert(a[n].1 == map_of(a)[x]);
        assert(b[n].1 == map_of(b)[x]);
        let a1 = a.drop_last();
        let b1 = b.drop_last();
        lemma_map_of::<K, W>(a1);
        lemma_map_of::<K, W>(b1);
        assert forall|k: K::V| map_of(a1).contains_key(k) == map_of(b1).contains_key(k) by {
            lemma_drop_last::<K, W>(a, k);
            lemma_drop_last::<K, W>(b, k);
        }
        assert forall|k: K::V| map_of(a1).contains_key(k) implies map_of(a1)[k] == map_of(b1)[k] by {
            let p = choose|p: int| keyed(a1, p, k);
            let q = choose|q: int| keyed(b1, q, k);
            assert(a[p] == a1[p]);
            assert(b[q] == b1[q]);
        }
        assert(map_of(a1) =~= map_of(b1));
        lemma_items_unique::<K, W>(a1, b1);
        assert(a =~= a1.push(a[n]));
        assert(b =~= b1.push(b[n]));
    } else {
        assert(a =~= b);
    }
}

proof fn lemma_drop_last<K: Key, W>(a: Seq<(K::V, W)>, k: K::V)
    requires
        ascending::<K, W>(a),
        a.len() > 0,
    ensures
        map_of(a.drop_last()).contains_key(k) <==> map_of(a).contains_key(k) && k != a.last().0,
{
    let a1 = a.drop_last();
    if map_of(a1).contains_key(k) {
        let p = choose|p: int| keyed(a1, p, k);
        assert(keyed(a, p, k));
        assert(K::before(a[p].0, a[a.len() - 1].0));
        K::irreflexive(k);
    }
    if map_of(a).contains_key(k) && k != a.last().0 {
        let p = choose|p: int| keyed(a, p, k);
        assert(keyed(a1, p, k));
    }
}

/// The listing of a map whose entries are known.
pub proof fn lemma_items_of<K: Key, W>(s: Seq<(K::V, W)>)
    requires
        ascending::<K, W>(s),
    ensures
        items_of::<K, W>(map_of(s)) == s,
        map_of(s).len() == s.len(),
        map_of(s).dom().finite(),
        forall|i: int|
            0 <= i < s.len() ==> map_of(s).contains_key((#[trigger] s[i]).0) && map_of(s)[s[i].0]
                == s[i].1,
{
    lemma_map_of::<K, W>(s);
    let t = items_of::<K, W>(map_of(s));
    assert(ascending::<K, W>(t) && map_of(t) == map_of(s));
    lemma_items_unique::<K, W>(t, s);
}

// --------------------------------------------------------------------------
// Tables
// --------------------------------------------------------------------------

/// A finite map whose entries are held in ascending key order.
pub struct Table<K: Key, V: View> {
    entries: Vec<(K, V)>,
}

impl<K: Key, V: View> View for Table<K, V> {
    type V = Map<K::V, V::V>;

    closed spec fn view(&self) -> Map<K::V, V::V> {
        map_of(self.pairs())
    }
}

impl<K: Key, V: View> Table<K, V> {
    closed spec fn pairs(&self) -> Seq<(K::V, V::V)> {
        self.entries@.map_values(|e: (K, V)| (e.0@, e.1@))
    }

    #[verifier::type_invariant]
    closed spec fn ordered(&self) -> bool {
        ascending::<K, V::V>(self.pairs())
    }

    /// An empty table.
    pub fn new() -> (r: Self)
        ensures
            r@ == Map::<K::V, V::V>::empty(),
    {
        let r = Table { entries: Vec::new() };
        assert(map_of(r.pairs()) =~= Map::<K::V, V::V>::empty()) by {
            assert forall|k: K::V| !map_of(r.pairs()).contains_key(k) by {
                if map_of(r.pairs()).contains_key(k) {
                    let i = choose|i: int| keyed(r.pairs(), i, k);
                }
            }
        }
        r
    }

    /// The number of entries.
    pub fn len(&self) -> (r: usize)
        ensures
            r == self@.len(),
            r == items_of::<K, V::V>(self@).len(),
            lists::<K, V::V>(items_of::<K, V::V>(self@), self@),
            self@.dom().finite(),
    {
        proof {
            use_type_invariant(self);
            lemma_items_of::<K, V::V>(self.pairs());
        }
        self.entries.len()
    }

    /// The key of entry `i` in key order.
    pub fn key_at(&self, i: usize) -> (r: &K)
        requires
            i < items_of::<K, V::V>(self@).len(),
        ensures
            r@ == items_of::<K, V::V>(self@)[i as int].0,
            self@.contains_key(r@),
            self@[r@] == items_of::<K, V::V>(self@)[i as int].1,
    {
        proof {
            use_type_invariant(self);
            lemma_items_of::<K, V::V>(self.pairs());
        }
        assert(self.pairs()[i as int].0 == self.entries@[i as int].0@);
        &self.entries[i].0
    }

    /// The value of entry `i` in key order.
    pub fn value_at(&self, i: usize) -> (r: &V)
        requires
            i < items_of::<K, V::V>(self@).len(),
        ensures
            r@ == items_of::<K, V::V>(self@)[i as int].1,
    {
        proof {
            use_type_invariant(self);
            lemma_items_of::<K, V::V>(self.pairs());
        }
        assert(self.pairs()[i as int].1 == self.entries@[i as int].1@);
        &self.entries[i].1
    }

    /// The number of keys that stand before `key`.
    fn position(&self, key: &K) -> (r: usize)
        ensures
            r <= self.pairs().len() == self.entries@.len(),
            forall|i: int| 0 <= i < r ==> K::before(#[trigger] self.pairs()[i].0, key@),
            forall|i: int|
                r <= i < self.pairs().len() ==> !K::before(#[trigger] self.pairs()[i].0, key@),
    {
        let mut i: usize = 0;
        proof {
            use_type_invariant(self);
        }
        while i < self.entries.len() && self.entries[i].0.precedes(key)
            invariant
                i <= self.entries@.len(),
                forall|j: int| 0 <= j < i ==> K::before(#[trigger] self.pairs()[j].0, key@),
            decreases self.entries@.len() - i,
        {
            assert(self.pairs()[i as int].0 == self.entries@[i as int].0@);
            i += 1;
        }
        assert forall|j: int| i <= j < self.pairs().len() implies !K::before(
            #[trigger] self.pairs()[j].0,
            key@,
        ) by {
            assert(self.pairs()[i as int].0 == self.entries@[i as int].0@);
            if K::before(self.pairs()[j].0, key@) && j > i {
                K::transitive(self.pairs()[i as int].0, self.pairs()[j].0, key@);
            }
        }
        i
    }

    /// Whether entry `i`, the first that does not stand before `key`, has it.
    fn holds(&self, i: usize, key: &K) -> (r: bool)
        requires
            i <= self.pairs().len() == self.entries@.len(),
            forall|j: int| 0 <= j < i ==> K::before(#[trigger] self.pairs()[j].0, key@),
            forall|j: int|
                i <= j < self.pairs().len() ==> !K::before(#[trigger] self.pairs()[j].0, key@),
        ensures
            r == self@.contains_key(key@),
            r ==> i < self.pairs().len() && self.pairs()[i as int].0 == key@
                && self.pairs()[i as int].1 == self@[key@],
            !r ==> forall|j: int|
                i <= j < self.pairs().len() ==> K::before(key@, #[trigger] self.pairs()[j].0),
    {
        proof {
            use_type_invariant(self);
            lemma_map_of::<K, V::V>(self.pairs());
            K::irreflexive(key@);
        }
        if i < self.entries.len() {
            assert(self.pairs()[i as int].0 == self.entries@[i as int].0@);
            let later = key.precedes(&self.entries[i].0);
            proof {
                K::total(key@, self.pairs()[i as int].0);
                if later {
                    assert forall|j: int| i <= j < self.pairs().len() implies K::before(
                        key@,
                        #[trigger] self.pairs()[j].0,
                    ) by {
                        if j > i {
                            K::transitive(key@, self.pairs()[i as int].0, self.pairs()[j].0);
                        }
                    }
                    if self@.contains_key(key@) {
                        let j = choose|j: int| keyed(self.pairs(), j, key@);
                        assert(self.pairs()[j].0 == key@);
                    }
                }
            }
            !later
        } else {
            proof {
                if self@.contains_key(key@) {
                    let j = choose|j: int| keyed(self.pairs(), j, key@);
                    assert(self.pairs()[j].0 == key@);
                }
            }
            false
        }
    }

    /// The value at `key`.
    pub fn get(&self, key: &K) -> (r: Option<&V>)
        ensures
            r is Some == self@.contains_key(key@),
            r matches Some(v) ==> v@ == self@[key@],
    {
        let i = self.position(key);
        if self.holds(i, key) {
            assert(self.pairs()[i as int].1 == self.entries@[i as int].1@);
            Some(&self.entries[i].1)
        } else {
            None
        }
    }

    /// Whether there is an entry at `key`.
    pub fn contains_key(&self, key: &K) -> (r: bool)
        ensures
            r == self@.contains_key(key@),
    {
        let i = self.position(key);
        self.holds(i, key)
    }

    /// Puts `value` at `key` and returns what stood there.
    pub fn insert(&mut self, key: K, value: V) -> (r: Option<V>)
        ensures
            final(self)@ == old(self)@.insert(key@, value@),
            r is Some == old(self)@.contains_key(key@),
            r matches Some(v) ==> v@ == old(self)@[key@],
    {
        let i = self.position(&key);
        let found = self.holds(i, &key);
        let ghost before = self.pairs();
        let ghost old_view = self@;
        let ghost entry = (key@, value@);
        proof {
            use_type_invariant(&*self);
            lemma_map_of::<K, V::V>(before);
        }
        let mut entries: Vec<(K, V)> = Vec::new();
        std::mem::swap(&mut entries, &mut self.entries);
        let ghost listed = entries@;
        let previous = if found {
            let old_entry = entries.remove(i);
            Some(old_entry.1)
        } else {
            None
        };
        entries.insert(i, (key, value));
        let ghost after = entries@.map_values(|e: (K, V)| (e.0@, e.1@));
        proof {
            assert(before[i as int].1 == listed[i as int].1@ || !found);
            if found {
                assert(after =~= before.update(i as int, entry));
            } else {
                assert(after =~= before.insert(i as int, entry));
            }
            assert(ascending::<K, V::V>(after));
            lemma_map_of::<K, V::V>(after);
            let m = old_view.insert(entry.0, entry.1);
            assert forall|k: K::V| map_of(after).contains_key(k) == m.contains_key(k) by {
                if map_of(after).contains_key(k) {
                    let j = choose|j: int| keyed(after, j, k);
                    if j != i {
                        let p = if found || j < i {
                            j
                        } else {
                            j - 1
                        };
                        assert(after[j] == before[p]);
                        assert(keyed(before, p, k));
                    }
                }
                if m.contains_key(k) {
                    if k == entry.0 {
                        assert(after[i as int] == entry);
                    } else {
                        let p = choose|p: int| keyed(before, p, k);
                        let j = if found || p < i {
                            p
                        } else {
                            p + 1
                        };
                        assert(after[j] == before[p]);
                        assert(keyed(after, j, k));
                    }
                }
            }
            assert forall|k: K::V| map_of(after).contains_key(k) implies map_of(after)[k]
                == m[k] by {
                let j = choose|j: int| keyed(after, j, k);
                assert(after[j].0 == k);
                if j != i {
                    let p = if found || j < i {
                        j
                    } else {
                        j - 1
                    };
                    assert(after[j] == before[p]);
                    K::irreflexive(k);
                    assert(k != entry.0) by {
                        if j < i {
                            assert(K::before(after[j].0, after[i as int].0));
                        } else {
                            assert(K::before(after[i as int].0, after[j].0));
                        }
                    }
                } else {
                    assert(after[i as int] == entry);
                }
            }
            assert(map_of(after) =~= m);
        }
        self.entries = entries;
        previous
    }

    /// Takes the entry at `key` out and returns its value.
    pub fn remove(&mut self, key: &K) -> (r: Option<V>)
        ensures
            final(self)@ == old(self)@.remove(key@),
            r is Some == old(self)@.contains_key(key@),
            r matches Some(v) ==> v@ == old(self)@[key@],
    {
        let i = self.position(key);
        let found = self.holds(i, key);
        let ghost before = self.pairs();
        let ghost old_view = self@;
        proof {
            use_type_invariant(&*self);
            lemma_map_of::<K, V::V>(before);
        }
        if !found {
            assert(old_view.remove(key@) =~= old_view);
            return None;
        }
        let mut entries: Vec<(K, V)> = Vec::new();
        std::mem::swap(&mut entries, &mut self.entries);
        let ghost listed = entries@;
        let old_entry = entries.remove(i);
        let ghost after = entries@.map_values(|e: (K, V)| (e.0@, e.1@));
        proof {
            assert(before[i as int].1 == listed[i as int].1@);
            assert(after =~= before.remove(i as int));
            assert(ascending::<K, V::V>(after));
            lemma_map_of::<K, V::V>(after);
            let m = old_view.remove(key@);
            assert forall|k: K::V| map_of(after).contains_key(k) == m.contains_key(k) by {
                if map_of(after).contains_key(k) {
                    let j = choose|j: int| keyed(after, j, k);
                    let p = if j < i {
                        j
                    } else {
                        j + 1
                    };
                    assert(after[j] == before[p]);
                    assert(keyed(before, p, k));
                    K::irreflexive(k);
                    assert(k != key@) by {
                        if p < i {
                            assert(K::before(before[p].0, before[i as int].0));
                        } else {
                            assert(K::before(before[i as int].0, before[p].0));
                        }
                    }
                }
                if m.contains_key(k) {
                    let p = choose|p: int| keyed(before, p, k);
                    let j = if p < i {
                        p
                    } else {
                        p - 1
                    };
                    assert(after[j] == before[p]);
                    assert(keyed(after, j, k));
                }
            }
            assert forall|k: K::V| map_of(after).contains_key(k) implies map_of(after)[k]
                == m[k] by {
                let j = choose|j: int| keyed(after, j, k);
                let p = if j < i {
                    j
                } else {
                    j + 1
                };
                assert(after[j] == before[p]);
            }
            assert(map_of(after) =~= m);
        }
        self.entries = entries;
        Some(old_entry.1)
    }
}

impl<V: View> Table<String, V> {
    /// The value at the key that `key` spells.
    pub fn at(&self, key: &str) -> (r: Option<&V>)
        ensures
            r is Some == self@.contains_key(key@),
            r matches Some(v) ==> v@ == self@[key@],
    {
        self.get(&key.to_owned())
    }
}

// --------------------------------------------------------------------------
// Copies
// --------------------------------------------------------------------------

/// A type whose values can be copied, the copy having the same view.
pub trait Duplicate: View + Sized {
    fn duplicate(&self) -> (r: Self)
        ensures
            r@ == self@,
    ;
}

impl Duplicate for String {
    fn duplicate(&self) -> (r: Self) {
        self.clone()
    }
}

impl Duplicate for u64 {
    fn duplicate(&self) -> (r: Self) {
        *self
    }
}

impl Duplicate for () {
    fn duplicate(&self) -> (r: Self) {
        ()
    }
}

impl<K: Key + Duplicate, V: Duplicate> Duplicate for Table<K, V> {
    fn duplicate(&self) -> (r: Self) {
        proof {
            use_type_invariant(self);
        }
        let mut entries: Vec<(K, V)> = Vec::new();
        let mut i: usize = 0;
        while i < self.entries.len()
            invariant
                i <= self.entries@.len(),
                entries@.len() == i,
                forall|j: int|
                    0 <= j < i ==> (#[trigger] entries@[j]).0@ == self.entries@[j].0@
                        && entries@[j].1@ == self.entries@[j].1@,
            decreases self.entries@.len() - i,
        {
            let k = self.entries[i].0.duplicate();
            let v = self.entries[i].1.duplicate();
            entries.push((k, v));
            i += 1;
        }
        assert(entries@.map_values(|e: (K, V)| (e.0@, e.1@)) =~= self.pairs());
        Table { entries }
    }
}

impl<K: Key + Duplicate, V: Duplicate> Table<K, V> {
    /// Puts all entries of another table in; they win over those with the same
    /// key.
    pub fn extend(&mut self, other: &Table<K, V>)
        ensures
            final(self)@ == old(self)@.union_prefer_right(other@),
    {
        let ghost start = self@;
        let ghost items = items_of::<K, V::V>(other@);
        let n: usize = other.len();
        let mut i: usize = 0;
        while i < n
            invariant
                i <= n == items.len(),
                items == items_of::<K, V::V>(other@),
                lists::<K, V::V>(items, other@),
                forall|j: int|
                    0 <= j < i ==> self@.contains_key((#[trigger] items[j]).0) && self@[items[j].0]
                        == items[j].1,
                forall|k: K::V| #[trigger]
                    start.contains_key(k) ==> self@.contains_key(k) && (self@[k] == start[k]
                        || other@.contains_key(k)),
                forall|k: K::V| #[trigger]
                    self@.contains_key(k) ==> start.contains_key(k) || other@.contains_key(k),
            decreases n - i,
        {
            proof {
                lemma_lists::<K, V::V>(items, other@);
                assert forall|j: int| 0 <= j < i implies (#[trigger] items[j]).0
                    != items[i as int].0 by {
                    K::irreflexive(items[j].0);
                    assert(K::before(items[j].0, items[i as int].0));
                }
            }
            self.insert(other.key_at(i).duplicate(), other.value_at(i).duplicate());
            i += 1;
        }
        proof {
            lemma_lists::<K, V::V>(items, other@);
            let m = start.union_prefer_right(other@);
            assert forall|k: K::V| #[trigger] self@.contains_key(k) == m.contains_key(k) by {
                if other@.contains_key(k) {
                    let j = choose|j: int| 0 <= j < items.len() && (#[trigger] items[j]).0 == k;
                    assert(self@.contains_key(items[j].0));
                }
            }
            assert forall|k: K::V| m.contains_key(k) implies #[trigger] self@[k] == m[k] by {
                if other@.contains_key(k) {
                    let j = choose|j: int| 0 <= j < items.len() && (#[trigger] items[j]).0 == k;
                    assert(self@[items[j].0] == items[j].1);
                } else {
                    assert(start.contains_key(k));
                }
            }
            assert(self@ =~= m);
        }
    }
}

// --------------------------------------------------------------------------
// Groups
// --------------------------------------------------------------------------

/// The map that marks the elements of `s`.
pub open spec fn marks<A>(s: Set<A>) -> Map<A, ()> {
    Map::new(|k: A| s.contains(k), |k: A| ())
}

/// The elements of a finite set in ascending order.
pub open spec fn elements_of<K: Key>(s: Set<K::V>) -> Seq<K::V> {
    items_of::<K, ()>(marks(s)).map_values(|e: (K::V, ())| e.0)
}

/// A finite set whose elements are held in ascending order.
pub struct Group<K: Key> {
    table: Table<K, ()>,
}

impl<K: Key> View for Group<K> {
    type V = Set<K::V>;

    closed spec fn view(&self) -> Set<K::V> {
        self.table@.dom()
    }
}

impl<K: Key> Group<K> {
    /// An empty set.
    pub fn new() -> (r: Self)
        ensures
            r@ == Set::<K::V>::empty(),
    {
        let r = Group { table: Table::new() };
        assert(r@ =~= Set::<K::V>::empty());
        r
    }

    /// The number of elements.
    pub fn len(&self) -> (r: usize)
        ensures
            r == self@.len(),
            r == elements_of::<K>(self@).len(),
            self@ == elements_of::<K>(self@).to_set(),
            self@.finite(),
            forall|i: int, j: int|
                0 <= i < j < elements_of::<K>(self@).len() ==> K::before(
                    #[trigger] elements_of::<K>(self@)[i],
                    #[trigger] elements_of::<K>(self@)[j],
                ),
    {
        assert(self.table@ =~= marks(self@));
        let n: usize = self.table.len();
        proof {
            let items = items_of::<K, ()>(self.table@);
            let listed = elements_of::<K>(self@);
            lemma_lists::<K, ()>(items, self.table@);
            assert forall|k: K::V| self@.contains(k) implies listed.to_set().contains(k) by {
                let j = choose|j: int| 0 <= j < items.len() && (#[trigger] items[j]).0 == k;
                assert(listed[j] == k);
            }
            assert forall|k: K::V| listed.to_set().contains(k) implies self@.contains(k) by {
                let j = choose|j: int| 0 <= j < listed.len() && listed[j] == k;
                assert(items[j].0 == k);
            }
            assert(self@ =~= listed.to_set());
            assert forall|i: int, j: int| 0 <= i < j < listed.len() implies K::before(
                #[trigger] listed[i],
                #[trigger] listed[j],
            ) by {
                assert(K::before(items[i].0, items[j].0));
            }
        }
        n
    }

    /// Element `i` in ascending order.
    pub fn element_at(&self, i: usize) -> (r: &K)
        requires
            i < elements_of::<K>(self@).len(),
        ensures
            r@ == elements_of::<K>(self@)[i as int],
            self@.contains(r@),
    {
        assert(self.table@ =~= marks(self@));
        self.table.key_at(i)
    }

    /// Whether `key` is an element.
    pub fn contains(&self, key: &K) -> (r: bool)
        ensures
            r == self@.contains(key@),
    {
        self.table.contains_key(key)
    }

    /// Adds `key` and tells whether it was new.
    pub fn insert(&mut self, key: K) -> (r: bool)
        ensures
            final(self)@ == old(self)@.insert(key@),
            r == !old(self)@.contains(key@),
    {
        let ghost k = key@;
        let ghost before = self.table@;
        let previous = self.table.insert(key, ());
        assert(self.table@.dom() =~= before.dom().insert(k));
        previous.is_none()
    }

    /// Takes `key` out and tells whether it was there.
    pub fn remove(&mut self, key: &K) -> (r: bool)
        ensures
            final(self)@ == old(self)@.remove(key@),
            r == old(self)@.contains(key@),
    {
        let ghost before = self.table@;
        let previous = self.table.remove(key);
        assert(self.table@.dom() =~= before.dom().remove(key@));
        previous.is_some()
    }
}

impl<K: Key + Duplicate> Duplicate for Group<K> {
    fn duplicate(&self) -> (r: Self) {
        Group { table: self.table.duplicate() }
    }
}

impl Group<String> {
    /// Whether the text `key` is an element.
    pub fn has(&self, key: &str) -> (r: bool)
        ensures
            r == self@.contains(key@),
    {
        self.contains(&key.to_owned())
    }
}

} // verus!
