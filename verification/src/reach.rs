//! Reachability in a heap of registered objects: objects are found by
//! address (the first registration of an address counts), each object points
//! to the objects its items are, and marking finds every object reachable
//! from the roots.
use vstd::prelude::*;

verus! {

/// What the collector knows of an object: its address and the addresses of
/// the values it holds.
pub struct Node {
    /// Address of the object.
    pub addr: int,
    /// Addresses of the values the object holds, in order.
    pub children: Seq<int>,
}

/// The first of the first `n` nodes with address `a`.
pub open spec fn find_in(nodes: Seq<Node>, a: int, n: nat) -> Option<nat>
    decreases n,
{
    if n == 0 || n > nodes.len() {
        None
    } else {
        match find_in(nodes, a, (n - 1) as nat) {
            Some(i) => Some(i),
            None => if nodes[n - 1].addr == a { Some((n - 1) as nat) } else { None },
        }
    }
}

/// The first node with address `a`, if any.
pub open spec fn find(nodes: Seq<Node>, a: int) -> Option<nat> {
    find_in(nodes, a, nodes.len())
}

/// Node `j` is where marking starts: the first node of a root's address.
pub open spec fn is_start(nodes: Seq<Node>, roots: Seq<int>, j: nat) -> bool {
    exists|r: int| 0 <= r < roots.len() && find(nodes, #[trigger] roots[r]) == Some(j)
}

/// Node `i` points to node `j`: `j` is the first node of one of `i`'s
/// children.
pub open spec fn edge(nodes: Seq<Node>, i: nat, j: nat) -> bool {
    i < nodes.len() && exists|c: int| 0 <= c < nodes[i as int].children.len()
        && find(nodes, #[trigger] nodes[i as int].children[c]) == Some(j)
}

/// `p` is a path from a start along edges.
pub open spec fn is_path(nodes: Seq<Node>, roots: Seq<int>, p: Seq<nat>) -> bool {
    &&& p.len() > 0
    &&& is_start(nodes, roots, p[0])
    &&& forall|k: int| 0 <= k < p.len() - 1 ==> #[trigger] edge(nodes, p[k], p[k + 1])
}

/// Node `j` is reachable from the roots.
pub open spec fn reachable(nodes: Seq<Node>, roots: Seq<int>, j: nat) -> bool {
    exists|p: Seq<nat>| #[trigger] is_path(nodes, roots, p) && p.last() == j
}

/// `find_in` stops at the first match.
pub proof fn lemma_find_in(nodes: Seq<Node>, a: int, n: nat)
    requires n <= nodes.len(),
    ensures
        match find_in(nodes, a, n) {
            Some(i) => i < n && nodes[i as int].addr == a
                && forall|k: int| 0 <= k < i ==> nodes[k].addr != a,
            None => forall|k: int| 0 <= k < n ==> nodes[k].addr != a,
        },
    decreases n,
{
    if n > 0 {
        lemma_find_in(nodes, a, (n - 1) as nat);
    }
}

/// A first match among the first `n` is the first match among all.
pub proof fn lemma_find_extends(nodes: Seq<Node>, a: int, n: nat, m: nat)
    requires n <= m <= nodes.len(), find_in(nodes, a, n) is Some,
    ensures find_in(nodes, a, m) == find_in(nodes, a, n),
    decreases m,
{
    if m > n {
        lemma_find_extends(nodes, a, n, (m - 1) as nat);
    }
}

/// With every start marked and every edge out of a marked node leading to a
/// marked node, every reachable node is marked.
pub proof fn lemma_closed_covers(nodes: Seq<Node>, roots: Seq<int>, marked: Seq<bool>, j: nat)
    requires
        marked.len() == nodes.len(),
        forall|s: nat| #[trigger] is_start(nodes, roots, s) ==> s < marked.len() && marked[s as int],
        forall|a: nat, b: nat| a < marked.len() && marked[a as int] && #[trigger] edge(nodes, a, b)
            ==> b < marked.len() && marked[b as int],
        reachable(nodes, roots, j),
    ensures
        j < marked.len() && marked[j as int],
{
    let p = choose|p: Seq<nat>| #[trigger] is_path(nodes, roots, p) && p.last() == j;
    assert forall|k: int| 0 <= k < p.len() implies p[k] < marked.len() && marked[p[k] as int] by {
        lemma_path_prefix_marked(nodes, roots, marked, p, k);
    }
}

proof fn lemma_path_prefix_marked(nodes: Seq<Node>, roots: Seq<int>, marked: Seq<bool>, p: Seq<nat>, k: int)
    requires
        marked.len() == nodes.len(),
        forall|s: nat| #[trigger] is_start(nodes, roots, s) ==> s < marked.len() && marked[s as int],
        forall|a: nat, b: nat| a < marked.len() && marked[a as int] && #[trigger] edge(nodes, a, b)
            ==> b < marked.len() && marked[b as int],
        is_path(nodes, roots, p),
        0 <= k < p.len(),
    ensures
        p[k] < marked.len() && marked[p[k] as int],
    decreases k,
{
    if k > 0 {
        lemma_path_prefix_marked(nodes, roots, marked, p, k - 1);
        let k1 = k - 1;
        assert(edge(nodes, p[k1], p[k1 + 1]));
    }
}

/// A start is reachable.
pub proof fn lemma_start_reachable(nodes: Seq<Node>, roots: Seq<int>, s: nat)
    requires is_start(nodes, roots, s),
    ensures reachable(nodes, roots, s),
{
    let p = seq![s];
    assert(is_path(nodes, roots, p));
}

/// A node that a reachable node points to is reachable.
pub proof fn lemma_edge_reachable(nodes: Seq<Node>, roots: Seq<int>, i: nat, j: nat)
    requires reachable(nodes, roots, i), edge(nodes, i, j),
    ensures reachable(nodes, roots, j),
{
    let p = choose|p: Seq<nat>| #[trigger] is_path(nodes, roots, p) && p.last() == i;
    let q = p.push(j);
    assert forall|k: int| 0 <= k < q.len() - 1 implies #[trigger] edge(nodes, q[k], q[k + 1]) by {
        if k < p.len() - 1 {
            assert(q[k] == p[k] && q[k + 1] == p[k + 1]);
        } else {
            assert(q[k] == i && q[k + 1] == j);
        }
    }
    assert(is_path(nodes, roots, q));
}

/// A reachable node exists among the nodes.
pub proof fn lemma_reachable_in_range(nodes: Seq<Node>, roots: Seq<int>, j: nat)
    requires reachable(nodes, roots, j),
    ensures j < nodes.len(),
{
    let p = choose|p: Seq<nat>| #[trigger] is_path(nodes, roots, p) && p.last() == j;
    if p.len() == 1 {
        let r = choose|r: int| 0 <= r < roots.len() && find(nodes, #[trigger] roots[r]) == Some(p[0]);
        lemma_find_in(nodes, roots[r], nodes.len());
    } else {
        let k: int = p.len() - 2;
        assert(edge(nodes, p[k], p[k + 1]));
        let c = choose|c: int| 0 <= c < nodes[p[k] as int].children.len()
            && find(nodes, #[trigger] nodes[p[k] as int].children[c]) == Some(j);
        lemma_find_in(nodes, nodes[p[k] as int].children[c], nodes.len());
    }
}

} // verus!
