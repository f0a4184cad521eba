//! A table from strings to values, in insertion order, in which no key occurs
//! twice: the name-keyed maps of the runtime (globals, locals, counters,
//! registries, modules).
use vstd::prelude::*;
use crate::value::str_equal;

verus! {

/// A table from strings to values; no key occurs twice.
pub struct Table<V> {
    entries: Vec<(String, V)>,
}

impl<V> Table<V> {
    /// No two entries have the same key.
    #[verifier::type_invariant]
    closed spec fn keys_distinct(self) -> bool {
        forall|i: int, j: int|
            0 <= i < self.entries@.len() && 0 <= j < self.entries@.len() && i != j
                ==> #[trigger] self.entries@[i].0@ != #[trigger] self.entries@[j].0@
    }

    /// Number of entries.
    pub closed spec fn size(self) -> nat {
        self.entries@.len()
    }

    /// Key of the `i`-th entry, in insertion order.
    pub closed spec fn key_at(self, i: int) -> Seq<char> {
        self.entries@[i].0@
    }

    /// Value of the `i`-th entry, in insertion order.
    pub closed spec fn value_at(self, i: int) -> V {
        self.entries@[i].1
    }

    /// The keys, in insertion order.
    pub open spec fn keys_seq(self) -> Seq<Seq<char>> {
        Seq::new(self.size(), |i: int| self.key_at(i))
    }

    /// Whether `k` is a key.
    pub open spec fn has_key(self, k: Seq<char>) -> bool {
        exists|i: int| 0 <= i < self.size() && #[trigger] self.key_at(i) == k
    }

    /// The position of key `k` (meaningful where `has_key(k)`).
    pub open spec fn index_of(self, k: Seq<char>) -> int {
        choose|i: int| 0 <= i < self.size() && #[trigger] self.key_at(i) == k
    }

    /// The table as a map.
    pub open spec fn as_map(self) -> Map<Seq<char>, V> {
        Map::new(|k: Seq<char>| self.has_key(k), |k: Seq<char>| self.value_at(self.index_of(k)))
    }

    /// An empty table.
    pub fn new() -> (t: Self)
        ensures t.size() == 0, t.as_map() == Map::<Seq<char>, V>::empty(),
    {
        let t = Table { entries: Vec::new() };
        assert(t.as_map() =~= Map::<Seq<char>, V>::empty());
        t
    }

    /// Number of entries.
    pub fn len(&self) -> (n: usize)
        ensures n == self.size(), n == self.as_map().dom().len(),
    {
        proof { use_type_invariant(self); self.lemma_dom_len(); }
        self.entries.len()
    }

    /// Key of the `i`-th entry.
    pub fn key(&self, i: usize) -> (k: &String)
        requires i < self.size(),
        ensures k@ == self.key_at(i as int),
    {
        &self.entries[i].0
    }

    /// Position of key `k`, if present.
    pub fn find(&self, k: &str) -> (r: Option<usize>)
        ensures
            match r {
                Some(i) => i < self.size() && self.key_at(i as int) == k@ && self.has_key(k@)
                    && self.index_of(k@) == i,
                None => !self.has_key(k@),
            },
    {
        proof { use_type_invariant(self); }
        let n = self.entries.len();
        let mut i: usize = 0;
        while i < n
            invariant
                n == self.size(),
                i <= n,
                forall|j: int| 0 <= j < i ==> #[trigger] self.key_at(j) != k@,
            decreases n - i,
        {
            if str_equal(self.entries[i].0.as_str(), k) {
                assert(self.key_at(i as int) == k@);
                proof {
                    use_type_invariant(self);
                    let c = self.index_of(k@);
                    assert(0 <= c < self.size() && self.key_at(c) == k@);
                    if c != i as int {
                        assert(self.entries@[c].0@ != self.entries@[i as int].0@);
                    }
                }
                return Some(i);
            }
            i = i + 1;
        }
        None
    }

    /// Whether `k` is a key.
    pub fn contains_key(&self, k: &str) -> (r: bool)
        ensures r == self.as_map().dom().contains(k@),
    {
        self.find(k).is_some()
    }

    /// The value stored under `k`, if any.
    pub fn get(&self, k: &str) -> (r: Option<&V>)
        ensures
            match r {
                Some(v) => self.as_map().dom().contains(k@) && *v == self.as_map()[k@],
                None => !self.as_map().dom().contains(k@),
            },
    {
        match self.find(k) {
            Some(i) => Some(&self.entries[i].1),
            None => None,
        }
    }

    /// The keys, in insertion order; no key occurs twice.
    pub fn keys(&self) -> (r: Vec<String>)
        ensures
            r@.len() == self.size(),
            forall|i: int| 0 <= i < self.size() ==> #[trigger] r@[i]@ == self.key_at(i),
            self.keys_seq().no_duplicates(),
            forall|i: int| 0 <= i < self.size() ==> self.as_map().dom().contains(#[trigger] self.key_at(i)),
    {
        proof {
            use_type_invariant(self);
            assert forall|i: int| 0 <= i < self.size() implies self.as_map().dom().contains(#[trigger] self.key_at(i)) by {
                assert(self.has_key(self.key_at(i)));
            }
        }
        let mut r: Vec<String> = Vec::new();
        let mut i: usize = 0;
        while i < self.entries.len()
            invariant
                i <= self.size(),
                r@.len() == i,
                forall|j: int| 0 <= j < i ==> #[trigger] r@[j]@ == self.key_at(j),
            decreases self.size() - i,
        {
            r.push(self.entries[i].0.clone());
            i = i + 1;
        }
        r
    }

    /// Stores `value` under `key`: an existing entry keeps its position and
    /// takes the new value; a new key is appended.
    pub fn insert(&mut self, key: String, value: V)
        ensures
            final(self).as_map() == old(self).as_map().insert(key@, value),
            old(self).has_key(key@) ==> final(self).keys_seq() == old(self).keys_seq(),
            !old(self).has_key(key@) ==> final(self).keys_seq() == old(self).keys_seq().push(key@),
    {
        proof { use_type_invariant(&*self); }
        let ghost pre = *self;
        let found = self.find(key.as_str());
        let ghost kv = key@;
        let mut entries: Vec<(String, V)> = Vec::new();
        std::mem::swap(&mut entries, &mut self.entries);
        assert(entries@ == pre.entries@);
        match found {
            Some(i) => {
                entries.set(i, (key, value));
                assert forall|a: int, b: int|
                    0 <= a < entries@.len() && 0 <= b < entries@.len() && a != b
                        implies #[trigger] entries@[a].0@ != #[trigger] entries@[b].0@ by {
                    assert(pre.key_at(a) != pre.key_at(b));
                }
                self.entries = entries;
                proof {
                    self.lemma_map_after_set(pre, i as int);
                    assert(self.keys_seq() =~= pre.keys_seq());
                }
            },
            None => {
                entries.push((key, value));
                assert forall|a: int, b: int|
                    0 <= a < entries@.len() && 0 <= b < entries@.len() && a != b
                        implies #[trigger] entries@[a].0@ != #[trigger] entries@[b].0@ by {
                    if a < pre.size() && b < pre.size() {
                        assert(pre.key_at(a) != pre.key_at(b));
                    } else if a < pre.size() {
                        assert(pre.key_at(a) == entries@[a].0@);
                    } else {
                        assert(pre.key_at(b) == entries@[b].0@);
                    }
                }
                self.entries = entries;
                proof {
                    assert forall|a: int, b: int|
                        0 <= a < pre.size() && 0 <= b < pre.size() && a != b
                            implies #[trigger] pre.key_at(a) != #[trigger] pre.key_at(b) by {
                        assert(pre.entries@[a].0@ != pre.entries@[b].0@);
                    }
                    self.lemma_map_after_push(pre);
                    assert(self.keys_seq() =~= pre.keys_seq().push(kv));
                }
            },
        }
    }

    /// The map's domain has one key per entry.
    proof fn lemma_dom_len(&self)
        requires self.keys_distinct(),
        ensures self.as_map().dom().len() == self.size(),
    {
        let m = self.as_map();
        let s = Seq::new(self.size(), |i: int| self.key_at(i));
        assert(s.no_duplicates()) by {
            assert forall|a: int, b: int| 0 <= a < s.len() && 0 <= b < s.len() && a != b
                implies s[a] != s[b] by {
                assert(self.entries@[a].0@ != self.entries@[b].0@);
            }
        }
        assert(m.dom() =~= s.to_set()) by {
            assert forall|k: Seq<char>| m.dom().contains(k) <==> s.to_set().contains(k) by {
                if m.dom().contains(k) {
                    let j = choose|j: int| 0 <= j < self.size() && #[trigger] self.key_at(j) == k;
                    assert(s[j] == k);
                }
                if s.to_set().contains(k) {
                    let j = choose|j: int| 0 <= j < s.len() && s[j] == k;
                    assert(self.key_at(j) == k);
                }
            }
        }
        s.unique_seq_to_set();
    }

    proof fn lemma_map_after_set(self, pre: Self, i: int)
        requires
            0 <= i < pre.size(),
            self.size() == pre.size(),
            forall|j: int| 0 <= j < pre.size() ==> #[trigger] self.key_at(j) == pre.key_at(j),
            forall|j: int| 0 <= j < pre.size() && j != i ==> #[trigger] self.value_at(j) == pre.value_at(j),
            forall|a: int, b: int|
                0 <= a < pre.size() && 0 <= b < pre.size() && a != b
                    ==> #[trigger] pre.key_at(a) != #[trigger] pre.key_at(b),
        ensures
            self.as_map() == pre.as_map().insert(pre.key_at(i), self.value_at(i)),
    {
        let k = pre.key_at(i);
        assert forall|q: Seq<char>| #[trigger] self.has_key(q) == pre.has_key(q) by {
            if self.has_key(q) {
                let j = choose|j: int| 0 <= j < self.size() && #[trigger] self.key_at(j) == q;
                assert(pre.key_at(j) == q);
            }
            if pre.has_key(q) {
                let j = choose|j: int| 0 <= j < pre.size() && #[trigger] pre.key_at(j) == q;
                assert(self.key_at(j) == q);
            }
        }
        assert forall|q: Seq<char>| self.has_key(q) implies
            #[trigger] self.index_of(q) == pre.index_of(q) by {
            let a = self.index_of(q);
            let b = pre.index_of(q);
            assert(self.key_at(a) == q);
            assert(pre.key_at(b) == q);
            assert(pre.key_at(a) == q);
        }
        assert(self.index_of(k) == i) by {
            assert(self.key_at(i) == k);
            assert(self.has_key(k));
            let a = self.index_of(k);
            assert(pre.key_at(a) == k);
        }
        assert(self.as_map() =~= pre.as_map().insert(k, self.value_at(i)));
    }

    proof fn lemma_map_after_push(self, pre: Self)
        requires
            self.size() == pre.size() + 1,
            forall|j: int| 0 <= j < pre.size() ==> #[trigger] self.key_at(j) == pre.key_at(j),
            forall|j: int| 0 <= j < pre.size() ==> #[trigger] self.value_at(j) == pre.value_at(j),
            !pre.has_key(self.key_at(pre.size() as int)),
            forall|a: int, b: int|
                0 <= a < pre.size() && 0 <= b < pre.size() && a != b
                    ==> #[trigger] pre.key_at(a) != #[trigger] pre.key_at(b),
        ensures
            self.as_map() == pre.as_map().insert(self.key_at(pre.size() as int), self.value_at(pre.size() as int)),
    {
        let n = pre.size() as int;
        let k = self.key_at(n);
        assert forall|q: Seq<char>| #[trigger] self.has_key(q) == (pre.has_key(q) || q == k) by {
            if self.has_key(q) {
                let j = choose|j: int| 0 <= j < self.size() && #[trigger] self.key_at(j) == q;
                if j < n { assert(pre.key_at(j) == q); }
            }
            if pre.has_key(q) {
                let j = choose|j: int| 0 <= j < pre.size() && #[trigger] pre.key_at(j) == q;
                assert(self.key_at(j) == q);
            }
            if q == k { assert(self.key_at(n) == q); }
        }
        assert forall|q: Seq<char>| pre.has_key(q) implies
            #[trigger] self.index_of(q) == pre.index_of(q) by {
            let a = self.index_of(q);
            let b = pre.index_of(q);
            assert(pre.key_at(b) == q);
            assert(self.key_at(b) == q);
            assert(self.key_at(a) == q);
            if a == n {
                assert(pre.has_key(k));
            }
            assert(pre.key_at(a) == q);
            if a != b {
                assert(pre.key_at(a) != pre.key_at(b));
            }
        }
        assert(self.index_of(k) == n) by {
            assert(self.has_key(k));
            let a = self.index_of(k);
            if a < n { assert(pre.key_at(a) == k); assert(pre.has_key(k)); }
        }
        assert(self.as_map() =~= pre.as_map().insert(k, self.value_at(n)));
    }
}

impl<V: Copy> Table<V> {
    /// A copy of the table, entry by entry.
    pub fn duplicate(&self) -> (r: Self)
        ensures r@ == self@, r.keys_seq() == self.keys_seq(),
    {
        proof { use_type_invariant(self); }
        let mut entries: Vec<(String, V)> = Vec::new();
        let mut i: usize = 0;
        while i < self.entries.len()
            invariant
                i <= self.entries@.len(),
                entries@.len() == i,
                forall|j: int| 0 <= j < i ==> #[trigger] entries@[j].0@ == self.entries@[j].0@
                    && entries@[j].1 == self.entries@[j].1,
            decreases self.entries@.len() - i,
        {
            entries.push((self.entries[i].0.clone(), self.entries[i].1));
            i = i + 1;
        }
        proof { use_type_invariant(self); }
        assert forall|a: int, b: int|
            0 <= a < entries@.len() && 0 <= b < entries@.len() && a != b
                implies #[trigger] entries@[a].0@ != #[trigger] entries@[b].0@ by {
            assert(self.entries@[a].0@ != self.entries@[b].0@);
        }
        let r = Table { entries };
        assert forall|k: Seq<char>| #[trigger] r.has_key(k) == self.has_key(k) by {
            if r.has_key(k) {
                let j = choose|j: int| 0 <= j < r.size() && #[trigger] r.key_at(j) == k;
                assert(self.key_at(j) == k);
            }
            if self.has_key(k) {
                let j = choose|j: int| 0 <= j < self.size() && #[trigger] self.key_at(j) == k;
                assert(r.key_at(j) == k);
            }
        }
        assert forall|k: Seq<char>| r.has_key(k) implies #[trigger] r.value_at(r.index_of(k)) == self.value_at(self.index_of(k)) by {
            let a = r.index_of(k);
            let b = self.index_of(k);
            assert(r.key_at(a) == k);
            assert(self.key_at(b) == k);
            assert(self.key_at(a) == k);
            if a != b {
                assert(self.entries@[a].0@ != self.entries@[b].0@);
            }
        }
        assert(r.as_map() =~= self.as_map());
        assert(r.keys_seq() =~= self.keys_seq());
        r
    }
}

impl<V> View for Table<V> {
    type V = Map<Seq<char>, V>;

    open spec fn view(&self) -> Map<Seq<char>, V> {
        self.as_map()
    }
}

/// What a read gives back of a write: after storing `v` under `k`, reading
/// `k` gives `v`, and every other key reads as it did before.
pub proof fn law_table_read_after_write<V>(t: Map<Seq<char>, V>, k: Seq<char>, v: V, other: Seq<char>)
    ensures
        t.insert(k, v).dom().contains(k),
        t.insert(k, v)[k] == v,
        other != k ==> t.insert(k, v).dom().contains(other) == t.dom().contains(other),
        other != k && t.dom().contains(other) ==> t.insert(k, v)[other] == t[other],
{
}

/// No key occurs twice, before or after a write: storing under a key that
/// is there keeps the keys as they are, and a new key, appended, occurs once.
pub proof fn law_table_keys_stay_distinct(keys: Seq<Seq<char>>, k: Seq<char>)
    requires keys.no_duplicates(), !keys.contains(k),
    ensures keys.push(k).no_duplicates(),
{
    let r = keys.push(k);
    assert forall|i: int, j: int| 0 <= i < r.len() && 0 <= j < r.len() && i != j implies r[i] != r[j] by {
        if i < keys.len() && j < keys.len() {
        } else if i < keys.len() {
            assert(r[i] == keys[i]);
        } else {
            assert(r[j] == keys[j]);
        }
    }
}

} // verus!
