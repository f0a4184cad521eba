//! Python values, dictionaries and errors.
use vstd::prelude::*;
use std::sync::Arc;
use crate::float::FloatValue;


verus! {

/// `Arc::clone` gives another pointer to the same allocation, hence the same
/// value (std documentation: "Makes a clone of the Arc pointer").
pub fn share<T>(a: &Arc<T>) -> (r: Arc<T>)
    ensures r == *a,
{
    share_arc(a)
}

/// Calls `Arc::clone`; the contract is that the clone points to the same
/// value, as std documents it.
#[verifier::external_body]
fn share_arc<T>(a: &Arc<T>) -> (r: Arc<T>)
    ensures r == *a,
{
    a.clone()
}

/// A Python value.
#[derive(Debug, PartialEq)]
pub enum PythonValue {
    /// Python's `None`.
    NoneValue,
    /// A boolean.
    Boolean(bool),
    /// An integer.
    Integer(i64),
    /// A binary64 float.
    Float(FloatValue),
    /// A string.
    String(String),
    /// A list.
    List(Vec<Arc<PythonValue>>),
    /// A tuple.
    Tuple(Vec<Arc<PythonValue>>),
    /// A dictionary with string keys.
    Dict(Dict),
    /// An object: class name and attributes.
    Object(String, Dict),
    /// A function, by name.
    Function(String),
}

/// A dictionary from strings to values; no key occurs twice.
#[derive(Debug, PartialEq)]
pub struct Dict {
    entries: Vec<(String, Arc<PythonValue>)>,
}

impl Dict {
    /// No two entries have the same key.
    #[verifier::type_invariant]
    closed spec fn keys_distinct(self) -> bool {
        forall|i: int, j: int|
            0 <= i < self.entries@.len() && 0 <= j < self.entries@.len() && i != j
                ==> #[trigger] self.entries@[i].0@ != #[trigger] self.entries@[j].0@
    }

    /// Number of entries.
    pub closed spec fn size(self) -> nat {
        self.entries@.len()
    }

    /// Key of the `i`-th entry, in storage order.
    pub closed spec fn key_at(self, i: int) -> Seq<char> {
        self.entries@[i].0@
    }

    /// Value of the `i`-th entry, in storage order.
    pub closed spec fn value_at(self, i: int) -> PythonValue {
        *self.entries@[i].1
    }

    /// Whether `k` is a key.
    pub open spec fn has_key(self, k: Seq<char>) -> bool {
        exists|i: int| 0 <= i < self.size() && #[trigger] self.key_at(i) == k
    }

    /// The position of key `k` (meaningful where `has_key(k)`).
    pub open spec fn index_of(self, k: Seq<char>) -> int {
        choose|i: int| 0 <= i < self.size() && #[trigger] self.key_at(i) == k
    }

    /// The value stored under `k` (meaningful where `has_key(k)`).
    pub open spec fn lookup(self, k: Seq<char>) -> PythonValue {
        self.value_at(self.index_of(k))
    }

    /// The dictionary as a map.
    pub open spec fn as_map(self) -> Map<Seq<char>, PythonValue> {
        Map::new(|k: Seq<char>| self.has_key(k), |k: Seq<char>| self.lookup(k))
    }

    /// An empty dictionary.
    pub fn new() -> (d: Self)
        ensures d.size() == 0, d.entries_model() == Seq::<(Seq<char>, ValueModel)>::empty(),
    {
        let d = Dict { entries: Vec::new() };
        proof { d.lemma_entries_model(); }
        assert(d.entries_model() =~= Seq::<(Seq<char>, ValueModel)>::empty());
        d
    }

    /// Number of entries; no two of them have the same key.
    pub fn len(&self) -> (n: usize)
        ensures
            n == self.size(),
            n == self.entries_model().len(),
            entry_keys_distinct(self.entries_model()),
    {
        proof {
            use_type_invariant(self);
            self.lemma_models_distinct();
            self.lemma_entries_model();
        }
        self.entries.len()
    }

    /// Whether there are no entries.
    pub fn is_empty(&self) -> (r: bool)
        ensures r == (self.size() == 0),
    {
        self.entries.len() == 0
    }

    /// Key of the `i`-th entry.
    pub fn key(&self, i: usize) -> (k: &String)
        requires i < self.size(),
        ensures k@ == self.key_at(i as int),
    {
        &self.entries[i].0
    }

    /// Value of the `i`-th entry.
    pub fn value(&self, i: usize) -> (v: &Arc<PythonValue>)
        requires i < self.size(),
        ensures **v == self.value_at(i as int),
    {
        &self.entries[i].1
    }

    /// Position of key `k`, if present.
    pub fn find(&self, k: &str) -> (r: Option<usize>)
        ensures
            match r {
                Some(i) => i < self.size() && self.key_at(i as int) == k@ && self.has_key(k@)
                    && self.index_of(k@) == i,
                None => !self.has_key(k@),
            },
    {
        proof { use_type_invariant(self); }
        let n = self.entries.len();
        let mut i: usize = 0;
        while i < n
            invariant
                n == self.size(),
                i <= n,
                forall|j: int| 0 <= j < i ==> #[trigger] self.key_at(j) != k@,
            decreases n - i,
        {
            if str_equal(self.entries[i].0.as_str(), k) {
                assert(self.key_at(i as int) == k@);
                proof {
                    use_type_invariant(self);
                    let c = self.index_of(k@);
                    assert(0 <= c < self.size() && self.key_at(c) == k@);
                    if c != i as int {
                        assert(self.entries@[c].0@ != self.entries@[i as int].0@);
                    }
                }
                return Some(i);
            }
            i = i + 1;
        }
        None
    }

    /// The value stored under `k`, if any.
    pub fn get(&self, k: &str) -> (r: Option<&Arc<PythonValue>>)
        ensures
            match r {
                Some(v) => self.has_key(k@) && **v == self.lookup(k@)
                    && model_has_key(self.entries_model(), k@)
                    && (**v)@ == model_lookup(self.entries_model(), k@),
                None => !self.has_key(k@) && !model_has_key(self.entries_model(), k@),
            },
            entry_keys_distinct(self.entries_model()),
    {
        proof {
            use_type_invariant(self);
            self.lemma_entries_model();
            self.lemma_models_distinct();
        }
        let ghost es = self.entries_model();
        match self.find(k) {
            Some(i) => {
                proof {
                    assert(es[i as int].0 == k@);
                    let c = choose|c: int| 0 <= c < es.len() && #[trigger] es[c].0 == k@;
                    if c != i as int {
                        assert(self.entries@[c].0@ != self.entries@[i as int].0@);
                    }
                }
                Some(&self.entries[i].1)
            },
            None => {
                proof {
                    if model_has_key(es, k@) {
                        let c = choose|c: int| 0 <= c < es.len() && #[trigger] es[c].0 == k@;
                        assert(self.key_at(c) == k@);
                    }
                }
                None
            },
        }
    }

    /// Stores `value` under `key`: an existing entry keeps its position and
    /// takes the new value; a new key is appended.
    pub fn insert(&mut self, key: String, value: Arc<PythonValue>)
        ensures
            old(self).has_key(key@) ==> {
                &&& final(self).size() == old(self).size()
                &&& forall|i: int| 0 <= i < old(self).size() ==> #[trigger] final(self).key_at(i) == old(self).key_at(i)
                &&& forall|i: int| 0 <= i < old(self).size() && i != old(self).index_of(key@)
                        ==> #[trigger] final(self).value_at(i) == old(self).value_at(i)
                &&& final(self).value_at(old(self).index_of(key@)) == *value
            },
            !old(self).has_key(key@) ==> {
                &&& final(self).size() == old(self).size() + 1
                &&& forall|i: int| 0 <= i < old(self).size() ==> #[trigger] final(self).key_at(i) == old(self).key_at(i)
                &&& forall|i: int| 0 <= i < old(self).size() ==> #[trigger] final(self).value_at(i) == old(self).value_at(i)
                &&& final(self).key_at(old(self).size() as int) == key@
                &&& final(self).value_at(old(self).size() as int) == *value
            },
            final(self).as_map() == old(self).as_map().insert(key@, *value),
            final(self).entries_model() == model_insert(old(self).entries_model(), key@, value@),
            entry_keys_distinct(old(self).entries_model()),
            entry_keys_distinct(final(self).entries_model()),
    {
        proof {
            use_type_invariant(&*self);
            self.lemma_models_distinct();
        }
        let ghost pre = *self;
        let found = self.find(key.as_str());
        let ghost kv = key@;
        let ghost vv = value@;
        proof { pre.lemma_entries_model(); }
        let mut entries: Vec<(String, Arc<PythonValue>)> = Vec::new();
        std::mem::swap(&mut entries, &mut self.entries);
        assert(entries@ == pre.entries@);
        match found {
            Some(i) => {
                entries.set(i, (key, value));
                assert forall|a: int, b: int|
                    0 <= a < entries@.len() && 0 <= b < entries@.len() && a != b
                        implies #[trigger] entries@[a].0@ != #[trigger] entries@[b].0@ by {
                    assert(pre.key_at(a) != pre.key_at(b));
                }
                self.entries = entries;
                proof {
                    self.lemma_map_after_set(pre, i as int);
                    self.lemma_entries_model();
                    let es = pre.entries_model();
                    assert(es[i as int].0 == kv);
                    let c = choose|c: int| 0 <= c < es.len() && #[trigger] es[c].0 == kv;
                    if c != i as int {
                        assert(pre.entries@[c].0@ != pre.entries@[i as int].0@);
                    }
                    assert(self.entries_model() =~= es.update(i as int, (kv, vv)));
                }
            },
            None => {
                entries.push((key, value));
                assert forall|a: int, b: int|
                    0 <= a < entries@.len() && 0 <= b < entries@.len() && a != b
                        implies #[trigger] entries@[a].0@ != #[trigger] entries@[b].0@ by {
                    if a < pre.size() && b < pre.size() {
                        assert(pre.key_at(a) != pre.key_at(b));
                    } else if a < pre.size() {
                        assert(pre.key_at(a) == entries@[a].0@);
                    } else {
                        assert(pre.key_at(b) == entries@[b].0@);
                    }
                }
                self.entries = entries;
                proof {
                    assert forall|a: int, b: int|
                        0 <= a < pre.size() && 0 <= b < pre.size() && a != b
                            implies #[trigger] pre.key_at(a) != #[trigger] pre.key_at(b) by {
                        assert(pre.entries@[a].0@ != pre.entries@[b].0@);
                    }
                    self.lemma_map_after_push(pre);
                    self.lemma_entries_model();
                    let es = pre.entries_model();
                    if model_has_key(es, kv) {
                        let c = choose|c: int| 0 <= c < es.len() && #[trigger] es[c].0 == kv;
                        assert(pre.key_at(c) == kv);
                    }
                    assert(self.entries_model() =~= es.push((kv, vv)));
                }
            },
        }
        proof {
            use_type_invariant(&*self);
            self.lemma_models_distinct();
        }
    }

    proof fn lemma_map_after_set(self, pre: Self, i: int)
        requires
            0 <= i < pre.size(),
            self.size() == pre.size(),
            forall|j: int| 0 <= j < pre.size() ==> #[trigger] self.key_at(j) == pre.key_at(j),
            forall|j: int| 0 <= j < pre.size() && j != i ==> #[trigger] self.value_at(j) == pre.value_at(j),
            forall|a: int, b: int|
                0 <= a < pre.size() && 0 <= b < pre.size() && a != b
                    ==> #[trigger] pre.key_at(a) != #[trigger] pre.key_at(b),
        ensures
            self.as_map() == pre.as_map().insert(pre.key_at(i), self.value_at(i)),
    {
        let k = pre.key_at(i);
        assert forall|q: Seq<char>| #[trigger] self.has_key(q) == pre.has_key(q) by {
            if self.has_key(q) {
                let j = choose|j: int| 0 <= j < self.size() && #[trigger] self.key_at(j) == q;
                assert(pre.key_at(j) == q);
            }
            if pre.has_key(q) {
                let j = choose|j: int| 0 <= j < pre.size() && #[trigger] pre.key_at(j) == q;
                assert(self.key_at(j) == q);
            }
        }
        assert forall|q: Seq<char>| self.has_key(q) implies
            #[trigger] self.index_of(q) == pre.index_of(q) by {
            let a = self.index_of(q);
            let b = pre.index_of(q);
            assert(self.key_at(a) == q);
            assert(pre.key_at(b) == q);
            assert(pre.key_at(a) == q);
        }
        assert(self.index_of(k) == i) by {
            assert(self.key_at(i) == k);
            assert(self.has_key(k));
            let a = self.index_of(k);
            assert(pre.key_at(a) == k);
        }
        assert(self.as_map() =~= pre.as_map().insert(k, self.value_at(i)));
    }

    proof fn lemma_map_after_push(self, pre: Self)
        requires
            self.size() == pre.size() + 1,
            forall|j: int| 0 <= j < pre.size() ==> #[trigger] self.key_at(j) == pre.key_at(j),
            forall|j: int| 0 <= j < pre.size() ==> #[trigger] self.value_at(j) == pre.value_at(j),
            !pre.has_key(self.key_at(pre.size() as int)),
            forall|a: int, b: int|
                0 <= a < pre.size() && 0 <= b < pre.size() && a != b
                    ==> #[trigger] pre.key_at(a) != #[trigger] pre.key_at(b),
        ensures
            self.as_map() == pre.as_map().insert(self.key_at(pre.size() as int), self.value_at(pre.size() as int)),
    {
        let n = pre.size() as int;
        let k = self.key_at(n);
        assert forall|q: Seq<char>| #[trigger] self.has_key(q) == (pre.has_key(q) || q == k) by {
            if self.has_key(q) {
                let j = choose|j: int| 0 <= j < self.size() && #[trigger] self.key_at(j) == q;
                if j < n { assert(pre.key_at(j) == q); }
            }
            if pre.has_key(q) {
                let j = choose|j: int| 0 <= j < pre.size() && #[trigger] pre.key_at(j) == q;
                assert(self.key_at(j) == q);
            }
            if q == k { assert(self.key_at(n) == q); }
        }
        assert forall|q: Seq<char>| pre.has_key(q) implies
            #[trigger] self.index_of(q) == pre.index_of(q) by {
            let a = self.index_of(q);
            let b = pre.index_of(q);
            assert(pre.key_at(b) == q);
            assert(self.key_at(b) == q);
            assert(self.key_at(a) == q);
            if a == n {
                assert(pre.has_key(k));
            }
            assert(pre.key_at(a) == q);
            if a != b {
                assert(pre.key_at(a) != pre.key_at(b));
            }
        }
        assert(self.index_of(k) == n) by {
            assert(self.has_key(k));
            let a = self.index_of(k);
            if a < n { assert(pre.key_at(a) == k); assert(pre.has_key(k)); }
        }
        assert(self.as_map() =~= pre.as_map().insert(k, self.value_at(n)));
    }
}


/// What a value stands for: its shape with sequences in place of vectors.
pub enum ValueModel {
    /// `None`.
    NoneValue,
    /// A boolean.
    Boolean(bool),
    /// An integer.
    Integer(i64),
    /// A float: bits, `Display` text, `Debug` text.
    Float(u64, Seq<char>, Seq<char>),
    /// A string.
    Str(Seq<char>),
    /// A list.
    List(Seq<ValueModel>),
    /// A tuple.
    Tuple(Seq<ValueModel>),
    /// A dictionary: its entries in storage order.
    Dict(Seq<(Seq<char>, ValueModel)>),
    /// An object: class name and attribute entries.
    Object(Seq<char>, Seq<(Seq<char>, ValueModel)>),
    /// A function name.
    Function(Seq<char>),
}

/// The model of a value.
pub open spec fn model(v: PythonValue) -> ValueModel
    decreases v, 0nat,
{
    match v {
        PythonValue::NoneValue => ValueModel::NoneValue,
        PythonValue::Boolean(b) => ValueModel::Boolean(b),
        PythonValue::Integer(i) => ValueModel::Integer(i),
        PythonValue::Float(f) => ValueModel::Float(f.bits, f.text@, f.repr@),
        PythonValue::String(s) => ValueModel::Str(s@),
        PythonValue::List(l) => ValueModel::List(models(l@, l@.len())),
        PythonValue::Tuple(t) => ValueModel::Tuple(models(t@, t@.len())),
        PythonValue::Dict(d) => ValueModel::Dict(d.entries_model()),
        PythonValue::Object(n, d) => ValueModel::Object(n@, d.entries_model()),
        PythonValue::Function(n) => ValueModel::Function(n@),
    }
}

/// Models of the first `n` items.
pub open spec fn models(s: Seq<Arc<PythonValue>>, n: nat) -> Seq<ValueModel>
    decreases s, n,
{
    if n == 0 || n > s.len() {
        Seq::empty()
    } else {
        models(s, (n - 1) as nat).push(model(*s[n - 1]))
    }
}

/// Models of the first `n` entries.
pub open spec fn entry_models(s: Seq<(String, Arc<PythonValue>)>, n: nat) -> Seq<(Seq<char>, ValueModel)>
    decreases s, n,
{
    if n == 0 || n > s.len() {
        Seq::empty()
    } else {
        entry_models(s, (n - 1) as nat).push((s[n - 1].0@, model(*s[n - 1].1)))
    }
}

impl Dict {
    /// Models of the entries, in storage order.
    pub closed spec fn entries_model(self) -> Seq<(Seq<char>, ValueModel)>
        decreases self, 0nat,
    {
        entry_models(self.entries@, self.entries@.len())
    }
}

impl Dict {
    /// One model per entry, in storage order.
    pub proof fn lemma_entries_model(&self)
        ensures
            self.entries_model().len() == self.size(),
            forall|i: int| 0 <= i < self.size() ==> #[trigger] self.entries_model()[i]
                == (self.key_at(i), self.value_at(i)@),
    {
        lemma_entry_models(self.entries@, self.entries@.len());
    }

    /// The keys of the entry models are distinct where those of the entries
    /// are.
    proof fn lemma_models_distinct(&self)
        requires self.keys_distinct(),
        ensures entry_keys_distinct(self.entries_model()),
    {
        self.lemma_entries_model();
        let es = self.entries_model();
        assert forall|i: int, j: int| 0 <= i < es.len() && 0 <= j < es.len() && i != j
            implies #[trigger] es[i].0 != #[trigger] es[j].0 by {
            assert(es[i].0 == self.key_at(i));
            assert(es[j].0 == self.key_at(j));
        }
    }

    /// A value stored in a dictionary is smaller than the dictionary.
    pub proof fn lemma_value_decreases(&self, i: int)
        requires 0 <= i < self.size(),
        ensures decreases_to!(*self => self.value_at(i)),
    {
        assert(decreases_to!(self.entries => self.entries@));
        assert(decreases_to!(self.entries@ => self.entries@[i]));
    }
}


/// Whether the entry models hold key `k`.
pub open spec fn model_has_key(es: Seq<(Seq<char>, ValueModel)>, k: Seq<char>) -> bool {
    exists|i: int| 0 <= i < es.len() && #[trigger] es[i].0 == k
}

/// No two entries have the same key, as in every dictionary the library
/// builds.
pub open spec fn entry_keys_distinct(es: Seq<(Seq<char>, ValueModel)>) -> bool {
    forall|i: int, j: int| 0 <= i < es.len() && 0 <= j < es.len() && i != j ==> #[trigger] es[i].0 != #[trigger] es[j].0
}

/// The value model stored under `k`: that of an entry with that key (with
/// distinct keys, the one entry that has it).
pub open spec fn model_lookup(es: Seq<(Seq<char>, ValueModel)>, k: Seq<char>) -> ValueModel {
    es[choose|i: int| 0 <= i < es.len() && #[trigger] es[i].0 == k].1
}

/// The entries after storing `v` under `k`: in place if `k` is there, else
/// appended.
pub open spec fn model_insert(es: Seq<(Seq<char>, ValueModel)>, k: Seq<char>, v: ValueModel) -> Seq<(Seq<char>, ValueModel)> {
    if model_has_key(es, k) {
        es.update(choose|i: int| 0 <= i < es.len() && #[trigger] es[i].0 == k, (k, v))
    } else {
        es.push((k, v))
    }
}

/// Models of a whole sequence.
pub open spec fn seq_models(s: Seq<Arc<PythonValue>>) -> Seq<ValueModel> {
    models(s, s.len())
}

/// Models of a concatenation are the concatenation of the models.
pub proof fn lemma_models_concat(a: Seq<Arc<PythonValue>>, b: Seq<Arc<PythonValue>>)
    ensures seq_models(a + b) == seq_models(a) + seq_models(b),
{
    lemma_models(a + b, (a + b).len());
    lemma_models(a, a.len());
    lemma_models(b, b.len());
    assert(seq_models(a + b) =~= seq_models(a) + seq_models(b));
}

/// Models after a push.
pub proof fn lemma_models_push(a: Seq<Arc<PythonValue>>, x: Arc<PythonValue>)
    ensures seq_models(a.push(x)) == seq_models(a).push(model(*x)),
{
    lemma_models(a.push(x), a.len() + 1);
    lemma_models(a, a.len());
    assert(seq_models(a.push(x)) =~= seq_models(a).push(model(*x)));
}

/// Models after an update.
pub proof fn lemma_models_update(a: Seq<Arc<PythonValue>>, i: int, x: Arc<PythonValue>)
    requires 0 <= i < a.len(),
    ensures seq_models(a.update(i, x)) == seq_models(a).update(i, model(*x)),
{
    lemma_models(a.update(i, x), a.len());
    lemma_models(a, a.len());
    assert(seq_models(a.update(i, x)) =~= seq_models(a).update(i, model(*x)));
}

/// Lengths and items of the models of a sequence.
pub proof fn lemma_seq_models(a: Seq<Arc<PythonValue>>)
    ensures
        seq_models(a).len() == a.len(),
        forall|i: int| 0 <= i < a.len() ==> #[trigger] seq_models(a)[i] == model(*a[i]),
{
    lemma_models(a, a.len());
}

impl View for PythonValue {
    type V = ValueModel;

    open spec fn view(&self) -> ValueModel {
        model(*self)
    }
}

/// `models` has one model per item, in order.
pub proof fn lemma_models(s: Seq<Arc<PythonValue>>, n: nat)
    requires n <= s.len(),
    ensures
        models(s, n).len() == n,
        forall|i: int| 0 <= i < n ==> #[trigger] models(s, n)[i] == model(*s[i]),
    decreases n,
{
    if n > 0 {
        lemma_models(s, (n - 1) as nat);
    }
}

/// `entry_models` has one model per entry, in order.
pub proof fn lemma_entry_models(s: Seq<(String, Arc<PythonValue>)>, n: nat)
    requires n <= s.len(),
    ensures
        entry_models(s, n).len() == n,
        forall|i: int| 0 <= i < n ==> #[trigger] entry_models(s, n)[i] == (s[i].0@, model(*s[i].1)),
    decreases n,
{
    if n > 0 {
        lemma_entry_models(s, (n - 1) as nat);
    }
}

/// Equality of two texts: true exactly when they hold the same characters.
pub fn str_equal(a: &str, b: &str) -> (r: bool)
    ensures r == (a@ == b@),
{
    let x = String::from_str(a);
    let y = String::from_str(b);
    x == y
}

} // verus!

verus! {

/// Python errors.
#[derive(Debug, PartialEq)]
pub enum PythonError {
    /// Method not found.
    MethodNotFound(String),
    /// Attribute not found.
    AttributeNotFound(String),
    /// Attribute error.
    AttributeError(String),
    /// Lexical analysis error.
    LexicalError(String),
    /// Syntax analysis error.
    SyntaxError(String),
    /// Runtime error.
    RuntimeError(String),
    /// Type error.
    TypeError(String),
    /// Argument error.
    ArgumentError(String),
    /// Name error.
    NameError(String),
    /// Index error.
    IndexError(String),
    /// Key error.
    KeyError(String),
    /// Zero division error.
    ZeroDivisionError(String),
    /// IO error.
    IOError(String),
    /// Import error.
    ImportError(String),
    /// Value error.
    ValueError(String),
}

/// Result of an operation that may raise a Python error.
pub type PythonResult<T> = Result<T, PythonError>;

/// The text that introduces each kind of error.
pub open spec fn error_prefix(e: PythonError) -> Seq<char> {
    match e {
        PythonError::MethodNotFound(_) => "Method not found: "@,
        PythonError::AttributeNotFound(_) => "Attribute not found: "@,
        PythonError::AttributeError(_) => "Attribute error: "@,
        PythonError::LexicalError(_) => "Lexical error: "@,
        PythonError::SyntaxError(_) => "Syntax error: "@,
        PythonError::RuntimeError(_) => "Runtime error: "@,
        PythonError::TypeError(_) => "Type error: "@,
        PythonError::ArgumentError(_) => "Argument error: "@,
        PythonError::NameError(_) => "Name error: "@,
        PythonError::IndexError(_) => "Index error: "@,
        PythonError::KeyError(_) => "Key error: "@,
        PythonError::ZeroDivisionError(_) => "ZeroDivisionError: "@,
        PythonError::IOError(_) => "IO error: "@,
        PythonError::ImportError(_) => "Import error: "@,
        PythonError::ValueError(_) => "Value error: "@,
    }
}

/// The message an error carries.
pub open spec fn error_message(e: PythonError) -> Seq<char> {
    match e {
        PythonError::MethodNotFound(m) => m@,
        PythonError::AttributeNotFound(m) => m@,
        PythonError::AttributeError(m) => m@,
        PythonError::LexicalError(m) => m@,
        PythonError::SyntaxError(m) => m@,
        PythonError::RuntimeError(m) => m@,
        PythonError::TypeError(m) => m@,
        PythonError::ArgumentError(m) => m@,
        PythonError::NameError(m) => m@,
        PythonError::IndexError(m) => m@,
        PythonError::KeyError(m) => m@,
        PythonError::ZeroDivisionError(m) => m@,
        PythonError::IOError(m) => m@,
        PythonError::ImportError(m) => m@,
        PythonError::ValueError(m) => m@,
    }
}

/// Every error's text is non-empty: it begins with the name of its kind.
pub proof fn law_error_text_not_empty(e: PythonError)
    ensures (error_prefix(e) + error_message(e)).len() > 0,
{
    reveal_strlit("Method not found: ");
    reveal_strlit("Attribute not found: ");
    reveal_strlit("Attribute error: ");
    reveal_strlit("Lexical error: ");
    reveal_strlit("Syntax error: ");
    reveal_strlit("Runtime error: ");
    reveal_strlit("Type error: ");
    reveal_strlit("Argument error: ");
    reveal_strlit("Name error: ");
    reveal_strlit("Index error: ");
    reveal_strlit("Key error: ");
    reveal_strlit("ZeroDivisionError: ");
    reveal_strlit("IO error: ");
    reveal_strlit("Import error: ");
    reveal_strlit("Value error: ");
}

impl PythonError {
    /// The error as a line of text: its kind, a colon and its message.
    pub fn to_string(&self) -> (s: String)
        ensures s@ == error_prefix(*self) + error_message(*self),
    {
        match self {
            PythonError::MethodNotFound(m) => crate::text::concat_str("Method not found: ", m.as_str()),
            PythonError::AttributeNotFound(m) => crate::text::concat_str("Attribute not found: ", m.as_str()),
            PythonError::AttributeError(m) => crate::text::concat_str("Attribute error: ", m.as_str()),
            PythonError::LexicalError(m) => crate::text::concat_str("Lexical error: ", m.as_str()),
            PythonError::SyntaxError(m) => crate::text::concat_str("Syntax error: ", m.as_str()),
            PythonError::RuntimeError(m) => crate::text::concat_str("Runtime error: ", m.as_str()),
            PythonError::TypeError(m) => crate::text::concat_str("Type error: ", m.as_str()),
            PythonError::ArgumentError(m) => crate::text::concat_str("Argument error: ", m.as_str()),
            PythonError::NameError(m) => crate::text::concat_str("Name error: ", m.as_str()),
            PythonError::IndexError(m) => crate::text::concat_str("Index error: ", m.as_str()),
            PythonError::KeyError(m) => crate::text::concat_str("Key error: ", m.as_str()),
            PythonError::ZeroDivisionError(m) => crate::text::concat_str("ZeroDivisionError: ", m.as_str()),
            PythonError::IOError(m) => crate::text::concat_str("IO error: ", m.as_str()),
            PythonError::ImportError(m) => crate::text::concat_str("Import error: ", m.as_str()),
            PythonError::ValueError(m) => crate::text::concat_str("Value error: ", m.as_str()),
        }
    }
}

impl Clone for PythonError {
    fn clone(&self) -> (r: Self)
        ensures r == *self,
    {
        match self {
            PythonError::MethodNotFound(m) => PythonError::MethodNotFound(m.clone()),
            PythonError::AttributeNotFound(m) => PythonError::AttributeNotFound(m.clone()),
            PythonError::AttributeError(m) => PythonError::AttributeError(m.clone()),
            PythonError::LexicalError(m) => PythonError::LexicalError(m.clone()),
            PythonError::SyntaxError(m) => PythonError::SyntaxError(m.clone()),
            PythonError::RuntimeError(m) => PythonError::RuntimeError(m.clone()),
            PythonError::TypeError(m) => PythonError::TypeError(m.clone()),
            PythonError::ArgumentError(m) => PythonError::ArgumentError(m.clone()),
            PythonError::NameError(m) => PythonError::NameError(m.clone()),
            PythonError::IndexError(m) => PythonError::IndexError(m.clone()),
            PythonError::KeyError(m) => PythonError::KeyError(m.clone()),
            PythonError::ZeroDivisionError(m) => PythonError::ZeroDivisionError(m.clone()),
            PythonError::IOError(m) => PythonError::IOError(m.clone()),
            PythonError::ImportError(m) => PythonError::ImportError(m.clone()),
            PythonError::ValueError(m) => PythonError::ValueError(m.clone()),
        }
    }
}

/// A copy of a sequence of shared values: the same values, shared again.
pub fn share_all(items: &Vec<Arc<PythonValue>>) -> (r: Vec<Arc<PythonValue>>)
    ensures r@ == items@,
{
    let mut r: Vec<Arc<PythonValue>> = Vec::new();
    let mut i: usize = 0;
    while i < items.len()
        invariant
            i <= items@.len(),
            r@ == items@.subrange(0, i as int),
        decreases items@.len() - i,
    {
        r.push(share(&items[i]));
        i = i + 1;
    }
    assert(items@.subrange(0, items@.len() as int) == items@);
    r
}

impl Clone for Dict {
    fn clone(&self) -> (r: Self)
        ensures
            r.size() == self.size(),
            forall|i: int| 0 <= i < self.size() ==> #[trigger] r.key_at(i) == self.key_at(i)
                && r.value_at(i) == self.value_at(i),
            r.entries_model() == self.entries_model(),
    {
        proof { use_type_invariant(self); }
        let mut entries: Vec<(String, Arc<PythonValue>)> = Vec::new();
        let mut i: usize = 0;
        while i < self.entries.len()
            invariant
                i <= self.entries@.len(),
                entries@ == self.entries@.subrange(0, i as int),
            decreases self.entries@.len() - i,
        {
            entries.push((self.entries[i].0.clone(), share(&self.entries[i].1)));
            i = i + 1;
        }
        assert(self.entries@.subrange(0, self.entries@.len() as int) == self.entries@);
        Dict { entries }
    }
}

impl Clone for PythonValue {
    fn clone(&self) -> (r: Self)
        ensures r@ == self@,
    {
        match self {
            PythonValue::NoneValue => PythonValue::NoneValue,
            PythonValue::Boolean(b) => PythonValue::Boolean(*b),
            PythonValue::Integer(i) => PythonValue::Integer(*i),
            PythonValue::Float(f) => PythonValue::Float(f.clone()),
            PythonValue::String(s) => PythonValue::String(s.clone()),
            PythonValue::List(l) => PythonValue::List(share_all(l)),
            PythonValue::Tuple(t) => PythonValue::Tuple(share_all(t)),
            PythonValue::Dict(d) => PythonValue::Dict(d.clone()),
            PythonValue::Object(n, d) => PythonValue::Object(n.clone(), d.clone()),
            PythonValue::Function(n) => PythonValue::Function(n.clone()),
        }
    }
}

} // verus!
