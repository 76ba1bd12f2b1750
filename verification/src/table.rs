//! A small keyed table, viewed as a finite map, and sums over finite maps.

use crate::account::Key;
use vstd::prelude::*;

verus! {

/// The map that a sequence of entries stands for: later entries win.
pub open spec fn entries_map<K, V>(s: Seq<(K, V)>) -> Map<K, V>
    decreases s.len(),
{
    if s.len() == 0 {
        Map::empty()
    } else {
        entries_map(s.drop_last()).insert(s.last().0, s.last().1)
    }
}

/// No key is filed twice.
pub open spec fn distinct_keys<K, V>(s: Seq<(K, V)>) -> bool {
    forall|i: int, j: int| 0 <= i < j < s.len() ==> s[i].0 != s[j].0
}

/// The map of a sequence of entries holds the keys of the entries, and no
/// others.
proof fn lemma_entries_map_domain<K, V>(s: Seq<(K, V)>, k: K)
    ensures
        entries_map(s).contains_key(k) <==> exists|i: int| 0 <= i < s.len() && s[i].0 == k,
        entries_map(s).dom().finite(),
    decreases s.len(),
{
    if s.len() > 0 {
        let t = s.drop_last();
        lemma_entries_map_domain(t, k);
        if entries_map(s).contains_key(k) {
            if s.last().0 == k {
                assert(s[s.len() - 1].0 == k);
            } else {
                let i = choose|i: int| 0 <= i < t.len() && t[i].0 == k;
                assert(s[i].0 == k);
            }
        }
        if exists|i: int| 0 <= i < s.len() && s[i].0 == k {
            let i = choose|i: int| 0 <= i < s.len() && s[i].0 == k;
            if i < t.len() {
                assert(t[i].0 == k);
            }
        }
    }
}

/// The map of distinct entries holds every entry.
pub proof fn lemma_entries_map_index<K, V>(s: Seq<(K, V)>, i: int)
    requires
        distinct_keys(s),
        0 <= i < s.len(),
    ensures
        entries_map(s).contains_key(s[i].0),
        entries_map(s)[s[i].0] == s[i].1,
    decreases s.len(),
{
    let t = s.drop_last();
    if i < t.len() {
        lemma_entries_map_index(t, i);
        assert(t[i] == s[i]);
        assert(s[i].0 != s[s.len() - 1].0);
    }
}

/// Replacing the value of an entry replaces the value under its key.
proof fn lemma_entries_map_update<K, V>(s: Seq<(K, V)>, i: int, v: V)
    requires
        distinct_keys(s),
        0 <= i < s.len(),
    ensures
        distinct_keys(s.update(i, (s[i].0, v))),
        entries_map(s.update(i, (s[i].0, v))) == entries_map(s).insert(s[i].0, v),
    decreases s.len(),
{
    let u = s.update(i, (s[i].0, v));
    let t = s.drop_last();
    if i < t.len() {
        lemma_entries_map_update(t, i, v);
        assert(u.drop_last() =~= t.update(i, (t[i].0, v)));
        assert(s[i].0 != s[s.len() - 1].0);
        assert(entries_map(u) =~= entries_map(s).insert(s[i].0, v));
    } else {
        assert(u.drop_last() =~= t);
        assert(entries_map(u) =~= entries_map(s).insert(s[i].0, v));
    }
}

/// The map of a sequence of entries holds finitely many keys.
pub proof fn lemma_entries_map_finite<K, V>(s: Seq<(K, V)>)
    ensures
        entries_map(s).dom().finite(),
    decreases s.len(),
{
    if s.len() > 0 {
        lemma_entries_map_finite(s.drop_last());
    }
}

/// One more entry files its value under its key.
proof fn lemma_entries_map_take<K, V>(s: Seq<(K, V)>, i: int)
    requires
        0 <= i < s.len(),
    ensures
        entries_map(s.take(i + 1)) == entries_map(s.take(i)).insert(s[i].0, s[i].1),
{
    assert(s.take(i + 1).drop_last() =~= s.take(i));
}

/// The sum over the first `i + 1` of distinct entries is the sum over the
/// first `i` and the term of the next.
pub proof fn lemma_entries_sum_step<K, V>(s: Seq<(K, V)>, f: spec_fn(K, V) -> nat, i: int)
    requires
        distinct_keys(s),
        0 <= i < s.len(),
    ensures
        map_sum(entries_map(s.take(i + 1)), f) == map_sum(entries_map(s.take(i)), f) + f(
            s[i].0,
            s[i].1,
        ),
{
    let before = s.take(i);
    lemma_entries_map_take(s, i);
    lemma_entries_map_domain(before, s[i].0);
    if entries_map(before).contains_key(s[i].0) {
        let j = choose|j: int| 0 <= j < before.len() && before[j].0 == s[i].0;
        assert(s[j].0 == s[i].0);
    }
    lemma_map_sum_insert(entries_map(before), f, s[i].0, s[i].1);
}

/// The sum over the first entries of distinct entries is within the sum over
/// more of them.
pub proof fn lemma_entries_sum_prefix<K, V>(s: Seq<(K, V)>, f: spec_fn(K, V) -> nat, i: int, n: int)
    requires
        distinct_keys(s),
        0 <= i <= n <= s.len(),
    ensures
        map_sum(entries_map(s.take(i)), f) <= map_sum(entries_map(s.take(n)), f),
    decreases n - i,
{
    if i < n {
        lemma_entries_sum_prefix(s, f, i, n - 1);
        lemma_entries_sum_step(s, f, n - 1);
    }
}

/// Every key of the map of distinct entries is the key of one entry, and
/// the map holds that entry's value.
pub proof fn lemma_entries_map_has<K, V>(s: Seq<(K, V)>, k: K) -> (i: int)
    requires
        distinct_keys(s),
        entries_map(s).contains_key(k),
    ensures
        0 <= i < s.len(),
        s[i].0 == k,
        s[i].1 == entries_map(s)[k],
{
    lemma_entries_map_domain(s, k);
    let i = choose|i: int| 0 <= i < s.len() && s[i].0 == k;
    lemma_entries_map_index(s, i);
    i
}

/// Whether no key is filed twice in `entries`.
pub fn has_distinct_keys<K: Key, V: Copy>(entries: &Vec<(K, V)>) -> (r: bool)
    ensures
        r == distinct_keys(entries@),
{
    let mut j: usize = 0;
    while j < entries.len()
        invariant
            j <= entries@.len(),
            forall|a: int, b: int| 0 <= a < b < j ==> entries@[a].0 != entries@[b].0,
        decreases entries@.len() - j,
    {
        let mut i: usize = 0;
        while i < j
            invariant
                i <= j < entries@.len(),
                forall|a: int| 0 <= a < i ==> entries@[a].0 != entries@[j as int].0,
            decreases j - i,
        {
            if entries[i].0.same(&entries[j].0) {
                return false;
            }
            i = i + 1;
        }
        j = j + 1;
    }
    true
}

/// A table of entries, each key filed once. Its view is the map from keys to
/// values. A lookup walks the entries.
#[derive(Clone, Debug)]
pub struct Table<K: Key, V: Copy> {
    entries: Vec<(K, V)>,
}

impl<K: Key, V: Copy> Table<K, V> {
    /// The table's invariant: no key is filed twice.
    pub closed spec fn wf(&self) -> bool {
        distinct_keys(self.entries@)
    }

    /// The map from keys to values.
    pub closed spec fn view(&self) -> Map<K, V> {
        entries_map(self.entries@)
    }

    /// The empty table.
    pub fn new() -> (r: Self)
        ensures
            r.wf(),
            r@ == Map::<K, V>::empty(),
    {
        Table { entries: Vec::new() }
    }

    /// The table of `entries`, in which no key is filed twice.
    pub fn from_distinct(entries: Vec<(K, V)>) -> (r: Self)
        requires
            distinct_keys(entries@),
        ensures
            r.wf(),
            r@ == entries_map(entries@),
    {
        Table { entries }
    }

    /// The table of `entries`, where no key is filed twice in them.
    pub fn from_entries(entries: Vec<(K, V)>) -> (r: Option<Self>)
        ensures
            match r {
                Some(table) => table.wf() && distinct_keys(entries@) && table@ == entries_map(
                    entries@,
                ),
                None => !distinct_keys(entries@),
            },
    {
        if has_distinct_keys(&entries) {
            Some(Self::from_distinct(entries))
        } else {
            None
        }
    }

    /// The entries of the table, each key once.
    pub fn to_entries(&self) -> (r: Vec<(K, V)>)
        requires
            self.wf(),
        ensures
            distinct_keys(r@),
            entries_map(r@) == self@,
    {
        let mut r: Vec<(K, V)> = Vec::new();
        let mut i: usize = 0;
        while i < self.entries.len()
            invariant
                i <= self.entries@.len(),
                r@ == self.entries@.take(i as int),
            decreases self.entries@.len() - i,
        {
            r.push(self.entries[i]);
            proof {
                assert(r@ =~= self.entries@.take(i + 1));
            }
            i = i + 1;
        }
        proof {
            assert(r@ =~= self.entries@);
        }
        r
    }

    /// Where `key` is filed, if anywhere.
    fn position(&self, key: &K) -> (r: Option<usize>)
        requires
            self.wf(),
        ensures
            match r {
                Some(i) => i < self.entries@.len() && self.entries@[i as int].0 == *key,
                None => !self@.contains_key(*key),
            },
    {
        let mut i: usize = 0;
        while i < self.entries.len()
            invariant
                i <= self.entries@.len(),
                forall|j: int| 0 <= j < i ==> self.entries@[j].0 != *key,
            decreases self.entries@.len() - i,
        {
            if self.entries[i].0.same(key) {
                return Some(i);
            }
            i = i + 1;
        }
        proof {
            lemma_entries_map_domain(self.entries@, *key);
        }
        None
    }

    /// The value filed under `key`.
    pub fn get(&self, key: &K) -> (r: Option<V>)
        requires
            self.wf(),
        ensures
            r == if self@.contains_key(*key) {
                Some(self@[*key])
            } else {
                None
            },
    {
        match self.position(key) {
            Some(i) => {
                proof {
                    lemma_entries_map_index(self.entries@, i as int);
                }
                Some(self.entries[i].1)
            },
            None => None,
        }
    }

    /// Files `value` under `key`, replacing what was filed there.
    pub fn insert(&mut self, key: K, value: V)
        requires
            old(self).wf(),
        ensures
            final(self).wf(),
            final(self)@ == old(self)@.insert(key, value),
    {
        match self.position(&key) {
            Some(i) => {
                proof {
                    lemma_entries_map_update(self.entries@, i as int, value);
                }
                self.entries.set(i, (key, value));
            },
            None => {
                proof {
                    let s = self.entries@;
                    assert forall|j: int| 0 <= j < s.len() implies s[j].0 != key by {
                        lemma_entries_map_domain(s, key);
                    }
                    assert(s.push((key, value)).drop_last() =~= s);
                }
                self.entries.push((key, value));
            },
        }
    }
}

/// The sum of `f` over the entries of a finite map.
pub open spec fn map_sum<K, V>(m: Map<K, V>, f: spec_fn(K, V) -> nat) -> nat
    decreases m.dom().len(),
    when m.dom().finite()
{
    if m.dom().len() == 0 {
        0
    } else {
        let k = m.dom().choose();
        f(k, m[k]) + map_sum(m.remove(k), f)
    }
}

/// A sum can be split at any key of the map.
pub proof fn lemma_map_sum_split<K, V>(m: Map<K, V>, f: spec_fn(K, V) -> nat, k: K)
    requires
        m.dom().finite(),
        m.contains_key(k),
    ensures
        map_sum(m, f) == f(k, m[k]) + map_sum(m.remove(k), f),
    decreases m.dom().len(),
{
    let c = m.dom().choose();
    if m.dom().len() == 0 {
        assert(m.dom() =~= Set::empty());
    } else if c != k {
        lemma_map_sum_split(m.remove(c), f, k);
        lemma_map_sum_split(m.remove(k), f, c);
        assert(m.remove(c).remove(k) =~= m.remove(k).remove(c));
    }
}

/// How a sum changes when one entry is written.
pub proof fn lemma_map_sum_insert<K, V>(m: Map<K, V>, f: spec_fn(K, V) -> nat, k: K, v: V)
    requires
        m.dom().finite(),
    ensures
        map_sum(m.insert(k, v), f) + (if m.contains_key(k) {
            f(k, m[k])
        } else {
            0
        }) == map_sum(m, f) + f(k, v),
{
    let n = m.insert(k, v);
    lemma_map_sum_split(n, f, k);
    if m.contains_key(k) {
        lemma_map_sum_split(m, f, k);
        assert(n.remove(k) =~= m.remove(k));
    } else {
        assert(n.remove(k) =~= m);
    }
}

/// The sum over the empty map is zero.
pub proof fn lemma_map_sum_empty<K, V>(f: spec_fn(K, V) -> nat)
    ensures
        map_sum(Map::<K, V>::empty(), f) == 0,
{
}

/// A sum of zeros is zero.
pub proof fn lemma_map_sum_zero<K, V>(m: Map<K, V>, f: spec_fn(K, V) -> nat)
    requires
        m.dom().finite(),
        forall|k: K| m.contains_key(k) ==> #[trigger] f(k, m[k]) == 0,
    ensures
        map_sum(m, f) == 0,
    decreases m.dom().len(),
{
    if m.dom().len() > 0 {
        let k = m.dom().choose();
        assert(m.contains_key(k));
        assert forall|j: K| m.remove(k).contains_key(j) implies #[trigger] f(j, m.remove(k)[j])
            == 0 by {
            assert(m.contains_key(j));
        }
        lemma_map_sum_zero(m.remove(k), f);
    }
}

/// No entry exceeds the sum.
pub proof fn lemma_map_sum_bounds<K, V>(m: Map<K, V>, f: spec_fn(K, V) -> nat, k: K)
    requires
        m.dom().finite(),
        m.contains_key(k),
    ensures
        f(k, m[k]) <= map_sum(m, f),
{
    lemma_map_sum_split(m, f, k);
}

} // verus!
