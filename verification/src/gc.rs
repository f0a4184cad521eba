//! The generational mark-and-sweep collector and the allocator that
//! registers objects with it.
use vstd::prelude::*;
use std::sync::Arc;
use crate::value::{PythonValue, ValueModel, share, lemma_models};
use crate::reach::{Node, find, find_in, is_start, is_path, edge, reachable, lemma_find_in, lemma_find_extends,
    lemma_closed_covers, lemma_start_reachable, lemma_edge_reachable, lemma_reachable_in_range};

verus! {

/// Generation of an object.
#[derive(Debug, Clone, Copy, PartialEq, Eq, Structural)]
pub enum Generation {
    /// Young generation.
    Young,
    /// Old generation.
    Old,
}

/// The address of a shared value's allocation (`Arc::as_ptr`). Two shared
/// values have the same address exactly when they share an allocation
/// (`Arc::ptr_eq`); which address an allocation gets is the allocator's
/// choice, so nothing is stated of the number.
#[verifier::external_body]
fn address_of(a: &Arc<PythonValue>) -> (r: usize)
{
    Arc::as_ptr(a) as usize
}

/// An object under the collector: the shared value, the address of its
/// allocation, the addresses of the values it holds, its generation and its
/// age (collections survived).
pub struct GcObject {
    value: Arc<PythonValue>,
    address: usize,
    children: Vec<usize>,
    generation: Generation,
    age: usize,
}

/// What the collector knows of an object.
pub struct ObjModel {
    /// The object's value.
    pub value: ValueModel,
    /// Its address.
    pub addr: int,
    /// Addresses of the values it holds.
    pub children: Seq<int>,
    /// Its generation.
    pub generation: Generation,
    /// Its age.
    pub age: nat,
}

/// The reachability node of an object.
pub open spec fn node_of(o: ObjModel) -> Node {
    Node { addr: o.addr, children: o.children }
}

/// The reachability nodes of objects.
pub open spec fn nodes_of(objs: Seq<ObjModel>) -> Seq<Node> {
    objs.map_values(|o: ObjModel| node_of(o))
}

impl GcObject {
    /// What the collector knows of the object.
    pub closed spec fn model(self) -> ObjModel {
        ObjModel {
            value: (*self.value)@,
            addr: self.address as int,
            children: self.children@.map_values(|c: usize| c as int),
            generation: self.generation,
            age: self.age as nat,
        }
    }
}

impl Clone for GcObject {
    fn clone(&self) -> (r: Self)
        ensures r.model() == self.model(),
    {
        let mut children: Vec<usize> = Vec::new();
        let mut i: usize = 0;
        while i < self.children.len()
            invariant i <= self.children@.len(), children@ == self.children@.subrange(0, i as int),
            decreases self.children@.len() - i,
        {
            children.push(self.children[i]);
            i = i + 1;
        }
        assert(children@ == self.children@);
        GcObject { value: share(&self.value), address: self.address, children, generation: self.generation, age: self.age }
    }
}

/// The models of objects.
pub open spec fn models_of(v: Seq<GcObject>) -> Seq<ObjModel> {
    v.map_values(|o: GcObject| o.model())
}

/// How many values a value holds directly: list and tuple items,
/// dictionary values, object attributes.
pub open spec fn direct_item_count(m: ValueModel) -> nat {
    match m {
        ValueModel::List(items) => items.len(),
        ValueModel::Tuple(items) => items.len(),
        ValueModel::Dict(es) => es.len(),
        ValueModel::Object(_, es) => es.len(),
        _ => 0,
    }
}

/// The addresses of the values a value holds directly, one per item in
/// order: list and tuple items, dictionary values, object attributes.
fn child_addresses(v: &PythonValue) -> (r: Vec<usize>)
    ensures r@.len() == direct_item_count(v@),
{
    let mut r: Vec<usize> = Vec::new();
    match v {
        PythonValue::List(items) | PythonValue::Tuple(items) => {
            proof { lemma_models(items@, items@.len()); }
            let mut i: usize = 0;
            while i < items.len()
                invariant i <= items@.len(), r@.len() == i,
                decreases items@.len() - i,
            {
                r.push(address_of(&items[i]));
                i = i + 1;
            }
        },
        PythonValue::Dict(d) | PythonValue::Object(_, d) => {
            proof { d.lemma_entries_model(); }
            let mut i: usize = 0;
            while i < d.len()
                invariant i <= d.size(), r@.len() == i,
                decreases d.size() - i,
            {
                r.push(address_of(d.value(i)));
                i = i + 1;
            }
        },
        _ => {},
    }
    r
}

/// A young object of age 0 for a value, with one child address per item
/// the value holds.
fn young_object(value: Arc<PythonValue>) -> (o: GcObject)
    ensures
        o.model().value == (*value)@, o.model().generation == Generation::Young, o.model().age == 0,
        o.model().children.len() == direct_item_count((*value)@),
{
    let address = address_of(&value);
    let children = child_addresses(&*value);
    GcObject { value, address, children, generation: Generation::Young, age: 0 }
}

/// Number of marks set among the first `n`.
pub open spec fn count_marked(m: Seq<bool>, n: nat) -> nat
    decreases n,
{
    if n == 0 || n > m.len() { 0 } else { count_marked(m, (n - 1) as nat) + if m[n - 1] { 1nat } else { 0nat } }
}

proof fn lemma_count_bound(m: Seq<bool>, n: nat)
    requires n <= m.len(),
    ensures count_marked(m, n) <= n,
    decreases n,
{
    if n > 0 { lemma_count_bound(m, (n - 1) as nat); }
}

proof fn lemma_count_set(m: Seq<bool>, i: int, n: nat)
    requires 0 <= i < m.len(), !m[i], n <= m.len(),
    ensures count_marked(m.update(i, true), n) == count_marked(m, n) + (if i < n { 1nat } else { 0nat }),
    decreases n,
{
    if n > 0 { lemma_count_set(m, i, (n - 1) as nat); }
}

/// The position of the first object at address `a`.
fn find_object(objs: &Vec<GcObject>, a: usize) -> (r: Option<usize>)
    ensures
        match find(nodes_of(models_of(objs@)), a as int) {
            Some(i) => r == Some(i as usize),
            None => r is None,
        },
{
    let ghost nodes = nodes_of(models_of(objs@));
    let mut i: usize = 0;
    while i < objs.len()
        invariant
            i <= objs@.len(),
            nodes == nodes_of(models_of(objs@)),
            nodes.len() == objs@.len(),
            find_in(nodes, a as int, i as nat) is None,
        decreases objs@.len() - i,
    {
        if objs[i].address == a {
            proof {
                assert(nodes[i as int].addr == a as int);
                assert(find_in(nodes, a as int, (i + 1) as nat) == Some(i as nat));
                lemma_find_extends(nodes, a as int, (i + 1) as nat, nodes.len());
            }
            return Some(i);
        }
        proof { assert(nodes[i as int].addr != a as int); }
        i = i + 1;
    }
    None
}

/// Marks every object reachable from the root addresses: the first object
/// of each root's address, and, from each marked object, the first object
/// of each address it holds.
fn mark(objs: &Vec<GcObject>, roots: &Vec<usize>) -> (marked: Vec<bool>)
    ensures
        marked@.len() == objs@.len(),
        forall|i: int| 0 <= i < objs@.len() ==> (#[trigger] marked@[i]
            <==> reachable(nodes_of(models_of(objs@)), roots@.map_values(|r: usize| r as int), i as nat)),
{
    let ghost nodes = nodes_of(models_of(objs@));
    let ghost rs = roots@.map_values(|r: usize| r as int);
    let n = objs.len();
    let mut marked: Vec<bool> = Vec::new();
    while marked.len() < n
        invariant marked@.len() <= n, n == objs@.len(), forall|i: int| 0 <= i < marked@.len() ==> !marked@[i],
        decreases n - marked@.len(),
    {
        marked.push(false);
    }
    proof {
        assert(count_marked(marked@, n as nat) == 0) by {
            assert forall|k: nat| k <= n implies count_marked(marked@, k) == 0 by {
                lemma_count_zero(marked@, k);
            }
        }
    }
    let mut stack: Vec<usize> = Vec::new();
    let ghost mut count: nat = 0;
    // the starts
    let mut r: usize = 0;
    while r < roots.len()
        invariant
            nodes == nodes_of(models_of(objs@)),
            rs == roots@.map_values(|r: usize| r as int),
            nodes.len() == n, n == objs@.len(),
            marked@.len() == n,
            r <= roots@.len(),
            count == count_marked(marked@, n as nat),
            count <= n,
            stack@.len() <= count,
            forall|i: int| 0 <= i < n ==> #[trigger] marked@[i] ==> reachable(nodes, rs, i as nat),
            forall|k: int| 0 <= k < stack@.len() ==> #[trigger] stack@[k] < n && marked@[stack@[k] as int],
            forall|a: int, b: int| 0 <= a < b < stack@.len() ==> stack@[a] != stack@[b],
            forall|i: int| 0 <= i < n && #[trigger] marked@[i] ==> stack@.contains(i as usize),
            forall|q: int| 0 <= q < r ==> match #[trigger] find(nodes, rs[q]) { Some(j) => j < n && marked@[j as int], None => true },
        decreases roots@.len() - r,
    {
        match find_object(objs, roots[r]) {
            Some(j) => {
                proof { lemma_find_in(nodes, rs[r as int], nodes.len()); }
                if !marked[j] {
                    proof {
                        assert(is_start(nodes, rs, j as nat));
                        lemma_start_reachable(nodes, rs, j as nat);
                        lemma_count_set(marked@, j as int, n as nat);
                        lemma_count_bound(marked@.update(j as int, true), n as nat);
                    }
                    let ghost st0 = stack@;
                    marked.set(j, true);
                    stack.push(j);
                    proof {
                        count = count + 1;
                        lemma_push_contains(st0, j);
                    }
                }
            },
            None => {},
        }
        r = r + 1;
    }
    // the closure
    while stack.len() > 0
        invariant
            nodes == nodes_of(models_of(objs@)),
            rs == roots@.map_values(|r: usize| r as int),
            nodes.len() == n, n == objs@.len(),
            marked@.len() == n,
            count == count_marked(marked@, n as nat),
            count <= n,
            stack@.len() <= count,
            forall|i: int| 0 <= i < n ==> #[trigger] marked@[i] ==> reachable(nodes, rs, i as nat),
            forall|k: int| 0 <= k < stack@.len() ==> #[trigger] stack@[k] < n && marked@[stack@[k] as int],
            forall|a: int, b: int| 0 <= a < b < stack@.len() ==> stack@[a] != stack@[b],
            forall|s: nat| #[trigger] is_start(nodes, rs, s) ==> s < n && marked@[s as int],
            forall|a: nat, b: nat| a < n && marked@[a as int] && !stack@.contains(a as usize) && #[trigger] edge(nodes, a, b)
                ==> b < n && marked@[b as int],
        decreases 2 * (n - count) + stack@.len(),
    {
        let ghost stack_before_pop = stack@;
        let i = stack.pop().unwrap();
        let ghost stack_after_pop = stack@;
        proof {
            assert(stack_before_pop == stack_after_pop.push(i));
            if stack_after_pop.contains(i) {
                let k = choose|k: int| 0 <= k < stack_after_pop.len() && stack_after_pop[k] == i;
                assert(stack_before_pop[k] == stack_before_pop[stack_before_pop.len() - 1]);
            }
        }
        let ghost before = marked@;
        let mut c: usize = 0;
        let kids = objs[i].children.len();
        while c < kids
            invariant
                nodes == nodes_of(models_of(objs@)),
                rs == roots@.map_values(|r: usize| r as int),
                nodes.len() == n, n == objs@.len(),
                i < n,
                marked@[i as int],
                kids == nodes[i as int].children.len(),
                c <= kids,
                marked@.len() == n,
                count == count_marked(marked@, n as nat),
                count <= n,
                stack@.len() <= count,
                forall|q: int| 0 <= q < n ==> before[q] ==> #[trigger] marked@[q],
                forall|q: int| 0 <= q < stack_after_pop.len() ==> stack@[q] == stack_after_pop[q],
                stack@.len() >= stack_after_pop.len(),
                forall|q: int| 0 <= q < n ==> #[trigger] marked@[q] && !before[q] ==> stack@.contains(q as usize),
                forall|i2: int| 0 <= i2 < n ==> #[trigger] marked@[i2] ==> reachable(nodes, rs, i2 as nat),
                forall|k: int| 0 <= k < stack@.len() ==> #[trigger] stack@[k] < n && marked@[stack@[k] as int],
                forall|a: int, b: int| 0 <= a < b < stack@.len() ==> stack@[a] != stack@[b],
                !stack@.contains(i),
                forall|q: int| 0 <= q < c ==> match #[trigger] find(nodes, nodes[i as int].children[q]) {
                    Some(j) => j < n && marked@[j as int], None => true },
                2 * (n - count) + stack@.len() <= 2 * (n - count_marked(before, n as nat)) + stack_after_pop.len(),
            decreases kids - c,
        {
            let a = objs[i].children[c];
            match find_object(objs, a) {
                Some(j) => {
                    proof { lemma_find_in(nodes, a as int, nodes.len()); }
                    if !marked[j] {
                        proof {
                            assert(nodes[i as int].children[c as int] == a as int);
                            assert(edge(nodes, i as nat, j as nat));
                            lemma_edge_reachable(nodes, rs, i as nat, j as nat);
                            lemma_count_set(marked@, j as int, n as nat);
                            lemma_count_bound(marked@.update(j as int, true), n as nat);
                        }
                        let ghost st0 = stack@;
                        marked.set(j, true);
                        stack.push(j);
                        proof {
                            count = count + 1;
                            lemma_push_contains(st0, j);
                        }
                    }
                },
                None => {},
            }
            c = c + 1;
        }
        proof {
            assert forall|b: nat| #[trigger] edge(nodes, i as nat, b) implies b < n && marked@[b as int] by {
                let q = choose|q: int| 0 <= q < nodes[i as int].children.len()
                    && find(nodes, #[trigger] nodes[i as int].children[q]) == Some(b);
                assert(match find(nodes, nodes[i as int].children[q]) { Some(j) => j < n && marked@[j as int], None => true });
            }
            assert forall|a: nat, b: nat| a < n && marked@[a as int] && !stack@.contains(a as usize) && #[trigger] edge(nodes, a, b)
                implies b < n && marked@[b as int] by {
                if a != i as nat {
                    assert(before[a as int]);
                    assert(!(stack_after_pop.push(i)).contains(a as usize)) by {
                        if stack_after_pop.push(i).contains(a as usize) {
                            let k = choose|k: int| 0 <= k < stack_after_pop.push(i).len() && stack_after_pop.push(i)[k] == a as usize;
                            if k < stack_after_pop.len() {
                                assert(stack@[k] == a as usize);
                            }
                        }
                    }
                }
            }
        }
    }
    proof {
        assert forall|i: int| 0 <= i < n implies (marked@[i] <==> reachable(nodes, rs, i as nat)) by {
            if reachable(nodes, rs, i as nat) {
                lemma_closed_covers(nodes, rs, marked@, i as nat);
            }
        }
    }
    marked
}

proof fn lemma_push_contains(s: Seq<usize>, x: usize)
    ensures
        s.push(x).contains(x),
        forall|y: usize| s.contains(y) ==> #[trigger] s.push(x).contains(y),
{
    assert(s.push(x)[s.len() as int] == x);
    assert forall|y: usize| s.contains(y) implies #[trigger] s.push(x).contains(y) by {
        let k = choose|k: int| 0 <= k < s.len() && s[k] == y;
        assert(s.push(x)[k] == y);
    }
}

proof fn lemma_count_zero(m: Seq<bool>, k: nat)
    requires k <= m.len(), forall|i: int| 0 <= i < m.len() ==> !m[i],
    ensures count_marked(m, k) == 0,
    decreases k,
{
    if k > 0 { lemma_count_zero(m, (k - 1) as nat); }
}

} // verus!

verus! {

/// The objects among the first `n` that survive a young collection and stay
/// young (reachable, younger than 2), each one collection older.
pub open spec fn kept_young(objs: Seq<ObjModel>, roots: Seq<int>, n: nat) -> Seq<ObjModel>
    decreases n,
{
    if n == 0 || n > objs.len() {
        Seq::empty()
    } else {
        let prev = kept_young(objs, roots, (n - 1) as nat);
        let o = objs[n - 1];
        if reachable(nodes_of(objs), roots, (n - 1) as nat) && o.age < 2 {
            prev.push(ObjModel { generation: Generation::Young, age: o.age + 1, ..o })
        } else {
            prev
        }
    }
}

/// The objects among the first `n` that a young collection promotes
/// (reachable, aged 2 or more), now old and of age 0.
pub open spec fn promoted(objs: Seq<ObjModel>, roots: Seq<int>, n: nat) -> Seq<ObjModel>
    decreases n,
{
    if n == 0 || n > objs.len() {
        Seq::empty()
    } else {
        let prev = promoted(objs, roots, (n - 1) as nat);
        let o = objs[n - 1];
        if reachable(nodes_of(objs), roots, (n - 1) as nat) && o.age >= 2 {
            prev.push(ObjModel { generation: Generation::Old, age: 0, ..o })
        } else {
            prev
        }
    }
}

/// The objects among the first `n` that an old collection keeps: the
/// reachable ones.
pub open spec fn kept(objs: Seq<ObjModel>, roots: Seq<int>, n: nat) -> Seq<ObjModel>
    decreases n,
{
    if n == 0 || n > objs.len() {
        Seq::empty()
    } else {
        let prev = kept(objs, roots, (n - 1) as nat);
        if reachable(nodes_of(objs), roots, (n - 1) as nat) { prev.push(objs[n - 1]) } else { prev }
    }
}

/// A copy of an object with another generation and age.
fn restamp(o: &GcObject, generation: Generation, age: usize) -> (r: GcObject)
    ensures r.model() == (ObjModel { generation, age: age as nat, ..o.model() }),
{
    let mut c = o.clone();
    c.generation = generation;
    c.age = age;
    c
}

/// The garbage collector: roots, young and old objects, and counts of
/// collections.
pub struct GC {
    roots: Vec<Arc<PythonValue>>,
    root_addresses: Vec<usize>,
    young_objects: Vec<GcObject>,
    old_objects: Vec<GcObject>,
    running: bool,
    young_threshold: usize,
    old_threshold: usize,
    young_collections: usize,
    old_collections: usize,
}

impl GC {
    /// Addresses of the roots, in registration order.
    pub closed spec fn roots_view(self) -> Seq<int> {
        self.root_addresses@.map_values(|a: usize| a as int)
    }

    /// What the root values stand for, in registration order.
    pub closed spec fn root_values(self) -> Seq<ValueModel> {
        self.roots@.map_values(|a: Arc<PythonValue>| (*a)@)
    }

    /// Young objects, in registration order.
    pub closed spec fn young(self) -> Seq<ObjModel> {
        models_of(self.young_objects@)
    }

    /// Old objects, in promotion order.
    pub closed spec fn old_gen(self) -> Seq<ObjModel> {
        models_of(self.old_objects@)
    }

    /// Whether the collector runs.
    pub closed spec fn is_running(self) -> bool {
        self.running
    }

    /// Number of young collections so far.
    pub closed spec fn young_count(self) -> usize {
        self.young_collections
    }

    /// Number of old collections so far.
    pub closed spec fn old_count(self) -> usize {
        self.old_collections
    }

    /// The thresholds (young, old).
    pub closed spec fn thresholds(self) -> (usize, usize) {
        (self.young_threshold, self.old_threshold)
    }

    /// A running collector with no roots and no objects.
    pub fn new() -> (gc: Self)
        ensures
            gc.roots_view() == Seq::<int>::empty(),
            gc.young() == Seq::<ObjModel>::empty(),
            gc.old_gen() == Seq::<ObjModel>::empty(),
            gc.is_running(),
            gc.young_count() == 0, gc.old_count() == 0,
            gc.thresholds() == (1000usize, 10000usize),
    {
        let gc = GC {
            roots: Vec::new(),
            root_addresses: Vec::new(),
            young_objects: Vec::new(),
            old_objects: Vec::new(),
            running: true,
            young_threshold: 1000,
            old_threshold: 10000,
            young_collections: 0,
            old_collections: 0,
        };
        assert(gc.roots_view() =~= Seq::<int>::empty());
        assert(gc.young() =~= Seq::<ObjModel>::empty());
        assert(gc.old_gen() =~= Seq::<ObjModel>::empty());
        gc
    }

    /// Registers a root: it is kept as a root and registered as a young
    /// object of age 0.
    pub fn register_root(&mut self, value: Arc<PythonValue>)
        ensures
            final(self).roots_view().len() == old(self).roots_view().len() + 1,
            final(self).roots_view().drop_last() == old(self).roots_view(),
            final(self).root_values() == old(self).root_values().push((*value)@),
            final(self).young().len() == old(self).young().len() + 1,
            final(self).young().drop_last() == old(self).young(),
            final(self).young().last().addr == final(self).roots_view().last(),
            final(self).young().last().value == (*value)@,
            final(self).young().last().children.len() == direct_item_count((*value)@),
            final(self).young().last().generation == Generation::Young,
            final(self).young().last().age == 0,
            final(self).old_gen() == old(self).old_gen(),
            final(self).young_count() == old(self).young_count(),
            final(self).old_count() == old(self).old_count(),
            final(self).is_running() == old(self).is_running(),
            final(self).thresholds() == old(self).thresholds(),
    {
        let ghost ra = self.roots_view();
        let ghost rv = self.root_values();
        let ghost y = self.young();
        let o = young_object(share(&value));
        self.root_addresses.push(o.address);
        self.roots.push(value);
        self.young_objects.push(o);
        assert(self.roots_view().drop_last() =~= ra);
        assert(self.root_values() =~= rv.push(self.root_values().last()));
        assert(self.young().drop_last() =~= y);
    }

    /// Registers an object: a young object of age 0.
    pub fn register_object(&mut self, value: Arc<PythonValue>)
        ensures
            final(self).young().len() == old(self).young().len() + 1,
            final(self).young().drop_last() == old(self).young(),
            final(self).young().last().value == (*value)@,
            final(self).young().last().children.len() == direct_item_count((*value)@),
            final(self).young().last().generation == Generation::Young,
            final(self).young().last().age == 0,
            final(self).roots_view() == old(self).roots_view(),
            final(self).root_values() == old(self).root_values(),
            final(self).old_gen() == old(self).old_gen(),
            final(self).young_count() == old(self).young_count(),
            final(self).old_count() == old(self).old_count(),
            final(self).is_running() == old(self).is_running(),
            final(self).thresholds() == old(self).thresholds(),
    {
        let ghost y = self.young();
        let o = young_object(value);
        self.young_objects.push(o);
        assert(self.young().drop_last() =~= y);
    }

    /// A young collection: young objects reachable from the roots through
    /// young objects survive, those aged 2 or more moving to the old
    /// generation with age 0 and the others growing one older; the rest
    /// are dropped.
    fn collect_young(&mut self)
        requires old(self).young_count() < usize::MAX,
        ensures
            final(self).young() == kept_young(old(self).young(), old(self).roots_view(), old(self).young().len()),
            final(self).old_gen() == old(self).old_gen() + promoted(old(self).young(), old(self).roots_view(), old(self).young().len()),
            final(self).young_count() == old(self).young_count() + 1,
            final(self).old_count() == old(self).old_count(),
            final(self).roots_view() == old(self).roots_view(),
            final(self).root_values() == old(self).root_values(),
            final(self).is_running() == old(self).is_running(),
            final(self).thresholds() == old(self).thresholds(),
    {
        let marked = mark(&self.young_objects, &self.root_addresses);
        let ghost y = self.young();
        let ghost r = self.roots_view();
        let ghost o0 = self.old_gen();
        let mut new_young: Vec<GcObject> = Vec::new();
        let mut new_old: Vec<GcObject> = Vec::new();
        let mut i: usize = 0;
        while i < self.young_objects.len()
            invariant
                y == models_of(self.young_objects@),
                r == self.root_addresses@.map_values(|a: usize| a as int),
                marked@.len() == y.len(),
                forall|k: int| 0 <= k < y.len() ==> (#[trigger] marked@[k] <==> reachable(nodes_of(y), r, k as nat)),
                i <= y.len(),
                models_of(new_young@) == kept_young(y, r, i as nat),
                models_of(new_old@) == promoted(y, r, i as nat),
            decreases y.len() - i,
        {
            let ghost ny = models_of(new_young@);
            let ghost no = models_of(new_old@);
            if marked[i] {
                let object = &self.young_objects[i];
                if object.age >= 2 {
                    new_old.push(restamp(object, Generation::Old, 0));
                } else {
                    new_young.push(restamp(object, Generation::Young, object.age + 1));
                }
            }
            assert(models_of(new_young@) =~= kept_young(y, r, (i + 1) as nat));
            assert(models_of(new_old@) =~= promoted(y, r, (i + 1) as nat));
            i = i + 1;
        }
        self.young_objects = new_young;
        let mut olds: Vec<GcObject> = Vec::new();
        std::mem::swap(&mut olds, &mut self.old_objects);
        let mut j: usize = 0;
        let ghost p = models_of(new_old@);
        while j < new_old.len()
            invariant
                p == models_of(new_old@),
                j <= p.len(),
                models_of(olds@) == o0 + p.subrange(0, j as int),
            decreases p.len() - j,
        {
            let ghost before = olds@;
            olds.push(new_old[j].clone());
            assert(models_of(olds@) =~= models_of(before).push(p[j as int]));
            assert(models_of(olds@) =~= o0 + p.subrange(0, (j + 1) as int));
            j = j + 1;
        }
        assert(p.subrange(0, p.len() as int) =~= p);
        self.old_objects = olds;
        self.young_collections = self.young_collections + 1;
    }

    /// An old collection: old objects reachable from the roots through old
    /// objects are kept; the rest are dropped.
    fn collect_old(&mut self)
        requires old(self).old_count() < usize::MAX,
        ensures
            final(self).old_gen() == kept(old(self).old_gen(), old(self).roots_view(), old(self).old_gen().len()),
            final(self).young() == old(self).young(),
            final(self).old_count() == old(self).old_count() + 1,
            final(self).young_count() == old(self).young_count(),
            final(self).roots_view() == old(self).roots_view(),
            final(self).root_values() == old(self).root_values(),
            final(self).is_running() == old(self).is_running(),
            final(self).thresholds() == old(self).thresholds(),
    {
        let marked = mark(&self.old_objects, &self.root_addresses);
        let ghost o = self.old_gen();
        let ghost r = self.roots_view();
        let mut new_old: Vec<GcObject> = Vec::new();
        let mut i: usize = 0;
        while i < self.old_objects.len()
            invariant
                o == models_of(self.old_objects@),
                r == self.root_addresses@.map_values(|a: usize| a as int),
                marked@.len() == o.len(),
                forall|k: int| 0 <= k < o.len() ==> (#[trigger] marked@[k] <==> reachable(nodes_of(o), r, k as nat)),
                i <= o.len(),
                models_of(new_old@) == kept(o, r, i as nat),
            decreases o.len() - i,
        {
            if marked[i] {
                new_old.push(self.old_objects[i].clone());
            }
            assert(models_of(new_old@) =~= kept(o, r, (i + 1) as nat));
            i = i + 1;
        }
        self.old_objects = new_old;
        self.old_collections = self.old_collections + 1;
    }

    /// A collection: a young collection, and after every tenth one an old
    /// collection too.
    pub fn collect(&mut self)
        requires
            old(self).young_count() < usize::MAX,
            old(self).old_count() < usize::MAX,
        ensures
            final(self).young() == kept_young(old(self).young(), old(self).roots_view(), old(self).young().len()),
            final(self).young_count() == old(self).young_count() + 1,
            (old(self).young_count() + 1) % 10 == 0 ==> {
                let o1 = old(self).old_gen() + promoted(old(self).young(), old(self).roots_view(), old(self).young().len());
                &&& final(self).old_gen() == kept(o1, old(self).roots_view(), o1.len())
                &&& final(self).old_count() == old(self).old_count() + 1
            },
            (old(self).young_count() + 1) % 10 != 0 ==> {
                &&& final(self).old_gen() == old(self).old_gen() + promoted(old(self).young(), old(self).roots_view(), old(self).young().len())
                &&& final(self).old_count() == old(self).old_count()
            },
            final(self).roots_view() == old(self).roots_view(),
            final(self).root_values() == old(self).root_values(),
            final(self).is_running() == old(self).is_running(),
            final(self).thresholds() == old(self).thresholds(),
    {
        self.collect_young();
        if self.young_collections % 10 == 0 {
            self.collect_old();
        }
    }

    /// Stops the collector.
    pub fn stop(&mut self)
        ensures
            !final(self).is_running(),
            final(self).young() == old(self).young(),
            final(self).old_gen() == old(self).old_gen(),
            final(self).roots_view() == old(self).roots_view(),
            final(self).root_values() == old(self).root_values(),
            final(self).young_count() == old(self).young_count(),
            final(self).old_count() == old(self).old_count(),
            final(self).thresholds() == old(self).thresholds(),
    {
        self.running = false;
    }

    /// Number of objects, young and old.
    pub fn get_objects_count(&self) -> (n: usize)
        requires self.young().len() + self.old_gen().len() <= usize::MAX,
        ensures n == self.young().len() + self.old_gen().len(),
    {
        self.young_objects.len() + self.old_objects.len()
    }

    /// Number of young objects.
    pub fn get_young_objects_count(&self) -> (n: usize)
        ensures n == self.young().len(),
    {
        self.young_objects.len()
    }

    /// Number of old objects.
    pub fn get_old_objects_count(&self) -> (n: usize)
        ensures n == self.old_gen().len(),
    {
        self.old_objects.len()
    }
}

/// An allocator that registers what it allocates with its collector.
pub struct Allocator {
    gc: GC,
}

impl Allocator {
    /// An allocator over a collector.
    pub fn new(gc: GC) -> (a: Self)
        ensures a.gc_view() == gc,
    {
        Allocator { gc }
    }

    /// The collector.
    pub closed spec fn gc_view(self) -> GC {
        self.gc
    }

    /// The collector.
    pub fn gc(&self) -> (g: &GC)
        ensures *g == self.gc_view(),
    {
        &self.gc
    }

    /// Allocates a shared value and registers it as a young object.
    pub fn allocate(&mut self, value: PythonValue) -> (r: Arc<PythonValue>)
        ensures
            (*r)@ == value@,
            final(self).gc_view().young().len() == old(self).gc_view().young().len() + 1,
            final(self).gc_view().young().drop_last() == old(self).gc_view().young(),
            final(self).gc_view().young().last().value == value@,
            final(self).gc_view().young().last().children.len() == direct_item_count(value@),
            final(self).gc_view().young().last().generation == Generation::Young,
            final(self).gc_view().young().last().age == 0,
            final(self).gc_view().roots_view() == old(self).gc_view().roots_view(),
            final(self).gc_view().root_values() == old(self).gc_view().root_values(),
            final(self).gc_view().old_gen() == old(self).gc_view().old_gen(),
            final(self).gc_view().is_running() == old(self).gc_view().is_running(),
            final(self).gc_view().thresholds() == old(self).gc_view().thresholds(),
            final(self).gc_view().young_count() == old(self).gc_view().young_count(),
            final(self).gc_view().old_count() == old(self).gc_view().old_count(),
    {
        let arc_value = Arc::new(value);
        self.gc.register_object(share(&arc_value));
        arc_value
    }

    /// Allocates a shared value and registers it as a root.
    pub fn allocate_root(&mut self, value: PythonValue) -> (r: Arc<PythonValue>)
        ensures
            (*r)@ == value@,
            final(self).gc_view().roots_view().len() == old(self).gc_view().roots_view().len() + 1,
            final(self).gc_view().roots_view().drop_last() == old(self).gc_view().roots_view(),
            final(self).gc_view().young().len() == old(self).gc_view().young().len() + 1,
            final(self).gc_view().young().drop_last() == old(self).gc_view().young(),
            final(self).gc_view().young().last().value == value@,
            final(self).gc_view().young().last().children.len() == direct_item_count(value@),
            final(self).gc_view().young().last().generation == Generation::Young,
            final(self).gc_view().young().last().age == 0,
            final(self).gc_view().young().last().addr == final(self).gc_view().roots_view().last(),
            final(self).gc_view().root_values() == old(self).gc_view().root_values().push(value@),
            final(self).gc_view().old_gen() == old(self).gc_view().old_gen(),
            final(self).gc_view().is_running() == old(self).gc_view().is_running(),
            final(self).gc_view().thresholds() == old(self).gc_view().thresholds(),
            final(self).gc_view().young_count() == old(self).gc_view().young_count(),
            final(self).gc_view().old_count() == old(self).gc_view().old_count(),
    {
        let arc_value = Arc::new(value);
        self.gc.register_root(share(&arc_value));
        arc_value
    }

    /// Runs a collection.
    pub fn collect(&mut self)
        requires
            old(self).gc_view().young_count() < usize::MAX,
            old(self).gc_view().old_count() < usize::MAX,
        ensures
            ({
                let g0 = old(self).gc_view();
                let g1 = final(self).gc_view();
                let o1 = g0.old_gen() + promoted(g0.young(), g0.roots_view(), g0.young().len());
                &&& g1.young() == kept_young(g0.young(), g0.roots_view(), g0.young().len())
                &&& g1.young_count() == g0.young_count() + 1
                &&& (g0.young_count() + 1) % 10 == 0 ==> g1.old_gen() == kept(o1, g0.roots_view(), o1.len())
                    && g1.old_count() == g0.old_count() + 1
                &&& (g0.young_count() + 1) % 10 != 0 ==> g1.old_gen() == o1 && g1.old_count() == g0.old_count()
                &&& g1.roots_view() == g0.roots_view()
                &&& g1.root_values() == g0.root_values()
                &&& g1.is_running() == g0.is_running()
                &&& g1.thresholds() == g0.thresholds()
            }),
    {
        self.gc.collect();
    }
}

} // verus!

verus! {

/// How many of the first `n` objects are reachable from the roots.
pub open spec fn reachable_count(objs: Seq<ObjModel>, roots: Seq<int>, n: nat) -> nat
    decreases n,
{
    if n == 0 || n > objs.len() {
        0
    } else {
        reachable_count(objs, roots, (n - 1) as nat)
            + if reachable(nodes_of(objs), roots, (n - 1) as nat) { 1nat } else { 0nat }
    }
}

/// A collection keeps exactly the reachable objects: a young collection
/// keeps or promotes each reachable young object and drops every other one,
/// and an old collection keeps each reachable old object and drops every
/// other one.
pub proof fn law_collection_keeps_reachable(objs: Seq<ObjModel>, roots: Seq<int>, n: nat)
    requires n <= objs.len(),
    ensures
        kept_young(objs, roots, n).len() + promoted(objs, roots, n).len() == reachable_count(objs, roots, n),
        kept(objs, roots, n).len() == reachable_count(objs, roots, n),
    decreases n,
{
    if n > 0 {
        law_collection_keeps_reachable(objs, roots, (n - 1) as nat);
    }
}

/// Without roots nothing is reachable, so a collection drops every object,
/// cycles included.
pub proof fn law_collection_without_roots(objs: Seq<ObjModel>, n: nat)
    ensures
        kept_young(objs, Seq::empty(), n) == Seq::<ObjModel>::empty(),
        promoted(objs, Seq::empty(), n) == Seq::<ObjModel>::empty(),
        kept(objs, Seq::empty(), n) == Seq::<ObjModel>::empty(),
    decreases n,
{
    if n > 0 && n <= objs.len() {
        law_collection_without_roots(objs, (n - 1) as nat);
        let j = (n - 1) as nat;
        assert(!reachable(nodes_of(objs), Seq::empty(), j)) by {
            if reachable(nodes_of(objs), Seq::empty(), j) {
                let p = choose|p: Seq<nat>| #[trigger] is_path(nodes_of(objs), Seq::<int>::empty(), p) && p.last() == j;
                assert(is_start(nodes_of(objs), Seq::<int>::empty(), p[0]));
            }
        }
    }
}

/// A root's object survives: the first registered object at a root's
/// address is reachable, so a collection keeps or promotes it.
pub proof fn law_roots_survive(objs: Seq<ObjModel>, roots: Seq<int>, r: int, j: nat)
    requires
        0 <= r < roots.len(),
        find(nodes_of(objs), roots[r]) == Some(j),
    ensures
        reachable(nodes_of(objs), roots, j),
        j < objs.len(),
{
    assert(is_start(nodes_of(objs), roots, j));
    lemma_start_reachable(nodes_of(objs), roots, j);
    lemma_reachable_in_range(nodes_of(objs), roots, j);
}

/// What a reachable object holds survives too: an object that a reachable
/// object points to is reachable.
pub proof fn law_children_of_reachable_survive(objs: Seq<ObjModel>, roots: Seq<int>, i: nat, j: nat)
    requires
        reachable(nodes_of(objs), roots, i),
        edge(nodes_of(objs), i, j),
    ensures
        reachable(nodes_of(objs), roots, j),
{
    lemma_edge_reachable(nodes_of(objs), roots, i, j);
}

} // verus!
