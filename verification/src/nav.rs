//! Navigation graph used by bots: nodes are places a player can stand on,
//! edges are the moves (walk, jump, fall, teleport, ...) between them.
//!
//! The graph here is the topology: node ids and kinds, and the directed
//! edges between them.  World positions and edge costs are floating-point
//! values that the application keeps beside it, indexed by the same node
//! and edge numbers.
use vstd::prelude::*;

verus! {

/// What kind of place a navigation node stands for.
#[derive(Clone, Copy, Debug, PartialEq, Eq, Structural)]
pub enum NavNodeType {
    Ground,
    Platform,
    JumpPad,
    Teleporter,
    ItemLocation,
}

/// The move that an edge stands for.
#[derive(Clone, Copy, Debug, PartialEq, Eq, Structural)]
pub enum NavEdgeType {
    Walk,
    Jump,
    JumpDown,
    FallOff,
    JumpGap,
    AirControl,
    JumpPad,
    Teleport,
    RocketJump,
}

/// A node of the graph; `id` is its index in `NavGraph::nodes`.
#[derive(Clone, Copy, Debug)]
pub struct NavNode {
    pub id: usize,
    pub node_type: NavNodeType,
}

/// A directed edge `from -> to`.
#[derive(Clone, Copy, Debug)]
pub struct NavEdge {
    pub from: usize,
    pub to: usize,
    pub edge_type: NavEdgeType,
}

pub struct NavGraph {
    pub nodes: Vec<NavNode>,
    pub edges: Vec<NavEdge>,
}

/// Edge `e` joins `a` and `b`, in either direction.
pub open spec fn links(e: NavEdge, a: usize, b: usize) -> bool {
    (e.from == a && e.to == b) || (e.from == b && e.to == a)
}

/// Some edge joins `a` and `b`, in either direction.
pub open spec fn adjacent(edges: Seq<NavEdge>, a: usize, b: usize) -> bool {
    exists|j: int| 0 <= j < edges.len() && #[trigger] links(edges[j], a, b)
}

pub open spec fn walk_step(edges: Seq<NavEdge>, p: Seq<usize>, i: int) -> bool {
    adjacent(edges, p[i], p[i + 1])
}

/// `p` is a non-empty sequence of nodes, each joined to the next by an edge
/// (edges taken in either direction).
pub open spec fn is_walk(edges: Seq<NavEdge>, p: Seq<usize>) -> bool {
    &&& p.len() > 0
    &&& forall|i: int| 0 <= i < p.len() - 1 ==> #[trigger] walk_step(edges, p, i)
}

/// `a` and `b` lie in the same connected part of the graph, edge
/// directions ignored.
pub open spec fn connected(edges: Seq<NavEdge>, a: usize, b: usize) -> bool {
    exists|p: Seq<usize>| #[trigger] is_walk(edges, p) && p[0] == a && p[p.len() - 1] == b
}

/// No edge has exactly one end in `s`.
pub open spec fn closed_set(edges: Seq<NavEdge>, s: Seq<usize>) -> bool {
    forall|j: int|
        0 <= j < edges.len() ==> (s.contains(#[trigger] edges[j].from) <==> s.contains(
            edges[j].to,
        ))
}

pub open spec fn in_some(cs: Seq<Seq<usize>>, v: usize) -> bool {
    exists|c: int| 0 <= c < cs.len() && #[trigger] cs[c].contains(v)
}

/// `cs` lists the connected parts of a graph with nodes `0..n` and the
/// given edges: every node lies in exactly one part, no node is listed
/// twice, each part is exactly the set of nodes connected to its first
/// node, which is its smallest, and the parts come in increasing order of
/// their first node.
pub open spec fn valid_components(n: nat, edges: Seq<NavEdge>, cs: Seq<Seq<usize>>) -> bool {
    &&& forall|c: int| 0 <= c < cs.len() ==> #[trigger] cs[c].len() > 0
    &&& forall|c: int| 0 <= c < cs.len() ==> #[trigger] cs[c].no_duplicates()
    &&& forall|c: int, k: int| 0 <= c < cs.len() && 0 <= k < cs[c].len() ==> #[trigger] cs[c][k] < n
    &&& forall|c1: int, c2: int, v: usize|
        0 <= c1 < cs.len() && 0 <= c2 < cs.len() && #[trigger] cs[c1].contains(v)
            && #[trigger] cs[c2].contains(v) ==> c1 == c2
    &&& forall|v: usize| v < n ==> #[trigger] in_some(cs, v)
    &&& forall|c: int, k: int|
        0 <= c < cs.len() && 0 <= k < cs[c].len() ==> #[trigger] connected(edges, cs[c][0], cs[c][k])
    &&& forall|c: int, v: usize|
        0 <= c < cs.len() && #[trigger] connected(edges, cs[c][0], v) ==> cs[c].contains(v)
    &&& forall|c: int, k: int|
        0 <= c < cs.len() && 0 <= k < cs[c].len() ==> cs[c][0] <= #[trigger] cs[c][k]
    &&& forall|c1: int, c2: int|
        0 <= c1 < c2 < cs.len() ==> #[trigger] cs[c1][0] < #[trigger] cs[c2][0]
}

pub open spec fn components_view(v: Seq<Vec<usize>>) -> Seq<Seq<usize>> {
    v.map_values(|c: Vec<usize>| c@)
}

/// Number of `false` entries.
pub open spec fn count_false(s: Seq<bool>) -> nat
    decreases s.len(),
{
    if s.len() == 0 {
        0
    } else {
        count_false(s.drop_last()) + if s.last() {
            0nat
        } else {
            1nat
        }
    }
}

/// One edge seen from `current` during the search: an unvisited node at
/// its far end is marked and pushed on the stack (the `to` end is looked at
/// first, then the `from` end).
pub open spec fn scan_edge(e: NavEdge, current: usize, vis: Seq<bool>, stack: Seq<usize>) -> (Seq<bool>, Seq<usize>) {
    let (v1, s1) = if e.from == current && !vis[e.to as int] {
        (vis.update(e.to as int, true), stack.push(e.to))
    } else {
        (vis, stack)
    };
    if e.to == current && !v1[e.from as int] {
        (v1.update(e.from as int, true), s1.push(e.from))
    } else {
        (v1, s1)
    }
}

/// The first `j` edges seen from `current`, in order.
pub open spec fn scan_edges(edges: Seq<NavEdge>, current: usize, vis: Seq<bool>, stack: Seq<usize>, j: nat) -> (
    Seq<bool>,
    Seq<usize>,
)
    decreases j,
{
    if j == 0 {
        (vis, stack)
    } else {
        let prev = scan_edges(edges, current, vis, stack, (j - 1) as nat);
        scan_edge(edges[j - 1], current, prev.0, prev.1)
    }
}

/// State of the search for one connected part: nodes marked so far, the
/// stack of nodes still to take, and the part collected so far.
pub struct Search {
    pub visited: Seq<bool>,
    pub stack: Seq<usize>,
    pub part: Seq<usize>,
}

/// One step of the search: the node on top of the stack joins the part,
/// then its unmarked neighbours, over the edges in order, are marked and
/// pushed.
pub open spec fn search_step(edges: Seq<NavEdge>, w: Search) -> Search {
    let current = w.stack.last();
    let scanned = scan_edges(edges, current, w.visited, w.stack.drop_last(), edges.len());
    Search { visited: scanned.0, stack: scanned.1, part: w.part.push(current) }
}

/// At most `fuel` steps of the search, stopping when the stack is empty.
pub open spec fn search(edges: Seq<NavEdge>, w: Search, fuel: nat) -> Search
    decreases fuel,
{
    if fuel == 0 || w.stack.len() == 0 {
        w
    } else {
        search(edges, search_step(edges, w), (fuel - 1) as nat)
    }
}

/// Marks and parts after looking at the first `k` start nodes of a graph
/// of `n` nodes: each start node not yet marked begins a new part, found
/// by the search from it.
pub open spec fn parts_upto(edges: Seq<NavEdge>, n: nat, k: nat) -> (Seq<bool>, Seq<Seq<usize>>)
    decreases k,
{
    if k == 0 {
        (Seq::new(n, |i: int| false), Seq::empty())
    } else {
        let prev = parts_upto(edges, n, (k - 1) as nat);
        if prev.0[k - 1] {
            prev
        } else {
            let w = search(
                edges,
                Search { visited: prev.0.update(k - 1, true), stack: seq![(k - 1) as usize], part: Seq::empty() },
                n,
            );
            (w.visited, prev.1.push(w.part))
        }
    }
}

/// The connected parts, each in the order the search reaches its nodes.
pub open spec fn search_parts(n: nat, edges: Seq<NavEdge>) -> Seq<Seq<usize>> {
    parts_upto(edges, n, n).1
}

proof fn lemma_search_succ(edges: Seq<NavEdge>, w: Search, p: nat)
    requires
        search(edges, w, p).stack.len() > 0,
    ensures
        search(edges, w, p + 1) == search_step(edges, search(edges, w, p)),
    decreases p,
{
    assert(w.stack.len() > 0);
    assert(search(edges, w, p + 1) == search(edges, search_step(edges, w), p));
    if p > 0 {
        lemma_search_succ(edges, search_step(edges, w), (p - 1) as nat);
        assert(((p - 1) as nat) + 1 == p);
        assert(search(edges, w, p) == search(edges, search_step(edges, w), (p - 1) as nat));
    }
}

proof fn lemma_search_done(edges: Seq<NavEdge>, w: Search, p: nat, f: nat)
    requires
        search(edges, w, p).stack.len() == 0,
        p <= f,
    ensures
        search(edges, w, f) == search(edges, w, p),
    decreases p,
{
    if p > 0 && w.stack.len() > 0 {
        lemma_search_done(edges, search_step(edges, w), (p - 1) as nat, (f - 1) as nat);
    }
}

/// A list of distinct nodes below `n` has at most `n` entries.
proof fn lemma_distinct_below(s: Seq<usize>, n: nat)
    requires
        s.no_duplicates(),
        forall|k: int| 0 <= k < s.len() ==> #[trigger] s[k] < n,
    ensures
        s.len() <= n,
{
    broadcast use vstd::set::group_set_axioms;

    let t = s.map_values(|x: usize| x as int);
    assert forall|i: int, j: int| 0 <= i < t.len() && 0 <= j < t.len() && i != j implies t[i] != t[j] by {
        assert(s[i] != s[j]);
    }
    assert(t.no_duplicates());
    t.unique_seq_to_set();
    let range = vstd::set_lib::set_int_range(0, n as int);
    assert forall|x: int| t.to_set().contains(x) implies range.contains(x) by {
        let i = choose|i: int| 0 <= i < t.len() && t[i] == x;
        assert(s[i] < n);
    }
    vstd::set_lib::lemma_int_range(0, n as int);
    vstd::set_lib::lemma_len_subset(t.to_set(), range);
}

proof fn lemma_count_false_set(s: Seq<bool>, i: int)
    requires
        0 <= i < s.len(),
        !s[i],
    ensures
        count_false(s.update(i, true)) + 1 == count_false(s),
    decreases s.len(),
{
    let t = s.update(i, true);
    if i == s.len() - 1 {
        assert(t.drop_last() =~= s.drop_last());
    } else {
        assert(t.drop_last() =~= s.drop_last().update(i, true));
        lemma_count_false_set(s.drop_last(), i);
    }
}

proof fn lemma_walk_closed(edges: Seq<NavEdge>, s: Seq<usize>, p: Seq<usize>, k: int)
    requires
        closed_set(edges, s),
        is_walk(edges, p),
        s.contains(p[0]),
        0 <= k < p.len(),
    ensures
        s.contains(p[k]),
    decreases k,
{
    if k > 0 {
        lemma_walk_closed(edges, s, p, k - 1);
        assert(walk_step(edges, p, k - 1));
        let j = choose|j: int| 0 <= j < edges.len() && #[trigger] links(edges[j], p[k - 1], p[k]);
        assert(s.contains(edges[j].from) <==> s.contains(edges[j].to));
    }
}

/// A closed set that holds `a` holds every node connected to `a`.
proof fn lemma_closed_connected(edges: Seq<NavEdge>, s: Seq<usize>, a: usize, b: usize)
    requires
        closed_set(edges, s),
        s.contains(a),
        connected(edges, a, b),
    ensures
        s.contains(b),
{
    let p = choose|p: Seq<usize>| #[trigger] is_walk(edges, p) && p[0] == a && p[p.len() - 1] == b;
    lemma_walk_closed(edges, s, p, p.len() - 1);
}

proof fn lemma_connected_refl(edges: Seq<NavEdge>, a: usize)
    ensures
        connected(edges, a, a),
{
    let p = seq![a];
    assert(is_walk(edges, p));
}

proof fn lemma_connected_extend(edges: Seq<NavEdge>, a: usize, b: usize, c: usize, j: int)
    requires
        connected(edges, a, b),
        0 <= j < edges.len(),
        links(edges[j], b, c),
    ensures
        connected(edges, a, c),
{
    let p = choose|p: Seq<usize>| #[trigger] is_walk(edges, p) && p[0] == a && p[p.len() - 1] == b;
    let q = p.push(c);
    assert forall|i: int| 0 <= i < q.len() - 1 implies #[trigger] walk_step(edges, q, i) by {
        if i < p.len() - 1 {
            assert(walk_step(edges, p, i));
        } else {
            assert(links(edges[j], q[i], q[i + 1]));
        }
    }
    assert(is_walk(edges, q));
}


proof fn lemma_walk_reverse(edges: Seq<NavEdge>, p: Seq<usize>)
    requires
        is_walk(edges, p),
    ensures
        is_walk(edges, p.reverse()),
{
    let q = p.reverse();
    assert forall|i: int| 0 <= i < q.len() - 1 implies #[trigger] walk_step(edges, q, i) by {
        let a = p.len() - 2 - i;
        assert(walk_step(edges, p, a));
        let j = choose|j: int| 0 <= j < edges.len() && #[trigger] links(edges[j], p[a], p[a + 1]);
        assert(links(edges[j], q[i], q[i + 1]));
    }
}

/// Connectedness does not depend on the order of the two nodes.
pub proof fn lemma_connected_symmetric(edges: Seq<NavEdge>, a: usize, b: usize)
    requires
        connected(edges, a, b),
    ensures
        connected(edges, b, a),
{
    let p = choose|p: Seq<usize>| #[trigger] is_walk(edges, p) && p[0] == a && p[p.len() - 1] == b;
    lemma_walk_reverse(edges, p);
    assert(is_walk(edges, p.reverse()));
}

/// Nodes connected to a common node are connected to each other.
pub proof fn lemma_connected_transitive(edges: Seq<NavEdge>, a: usize, b: usize, c: usize)
    requires
        connected(edges, a, b),
        connected(edges, b, c),
    ensures
        connected(edges, a, c),
{
    let p = choose|p: Seq<usize>| #[trigger] is_walk(edges, p) && p[0] == a && p[p.len() - 1] == b;
    let q = choose|q: Seq<usize>| #[trigger] is_walk(edges, q) && q[0] == b && q[q.len() - 1] == c;
    let r = p + q.drop_first();
    assert forall|i: int| 0 <= i < r.len() - 1 implies #[trigger] walk_step(edges, r, i) by {
        if i < p.len() - 1 {
            assert(walk_step(edges, p, i));
            assert(r[i] == p[i] && r[i + 1] == p[i + 1]);
        } else {
            let k = i - (p.len() - 1);
            assert(walk_step(edges, q, k));
            assert(r[i] == q[k] && r[i + 1] == q[k + 1]);
        }
    }
    assert(is_walk(edges, r));
    assert(r[r.len() - 1] == c);
}

/// Law of the partition into connected parts: two listed nodes lie in the
/// same part exactly when the graph connects them.
pub proof fn lemma_components_match_connectivity(
    n: nat,
    edges: Seq<NavEdge>,
    cs: Seq<Seq<usize>>,
    c1: int,
    k1: int,
    c2: int,
    k2: int,
)
    requires
        valid_components(n, edges, cs),
        0 <= c1 < cs.len(),
        0 <= k1 < cs[c1].len(),
        0 <= c2 < cs.len(),
        0 <= k2 < cs[c2].len(),
    ensures
        (c1 == c2) <==> connected(edges, cs[c1][k1], cs[c2][k2]),
{
    let x = cs[c1][k1];
    let y = cs[c2][k2];
    assert(connected(edges, cs[c1][0], cs[c1][k1]));
    assert(connected(edges, cs[c2][0], cs[c2][k2]));
    if c1 == c2 {
        lemma_connected_symmetric(edges, cs[c1][0], x);
        lemma_connected_transitive(edges, x, cs[c1][0], y);
    }
    if connected(edges, x, y) {
        lemma_connected_transitive(edges, cs[c1][0], x, y);
        assert(cs[c1].contains(y));
        assert(cs[c2].contains(y));
    }
}


/// The node recorded as reached just before `v`, if any.  Nodes past the
/// end of the table have none.
pub open spec fn pred_of(came_from: Seq<Option<usize>>, v: usize) -> Option<usize> {
    if v < came_from.len() {
        came_from[v as int]
    } else {
        None
    }
}

/// The node reached by following `k` recorded predecessors back from `v`.
pub open spec fn ancestor(came_from: Seq<Option<usize>>, v: usize, k: nat) -> Option<usize>
    decreases k,
{
    if k == 0 {
        Some(v)
    } else {
        match ancestor(came_from, v, (k - 1) as nat) {
            Some(u) => pred_of(came_from, u),
            None => None,
        }
    }
}

/// Following predecessors back from `v` stops after exactly `k` steps.
pub open spec fn chain_ends_at(came_from: Seq<Option<usize>>, v: usize, k: nat) -> bool {
    &&& ancestor(came_from, v, k) is Some
    &&& pred_of(came_from, ancestor(came_from, v, k)->0) is None
}

pub open spec fn chain_depth(came_from: Seq<Option<usize>>, v: usize) -> nat {
    choose|k: nat| chain_ends_at(came_from, v, k)
}

/// Targets of the selected moves, in order, each taken once.
pub open spec fn distinct_targets(sel: Seq<Option<usize>>) -> Seq<usize>
    decreases sel.len(),
{
    if sel.len() == 0 {
        Seq::empty()
    } else {
        let rest = distinct_targets(sel.drop_last());
        match sel.last() {
            Some(t) => if rest.contains(t) {
                rest
            } else {
                rest.push(t)
            },
            None => rest,
        }
    }
}

pub open spec fn edge_to(from: usize, edge_type: NavEdgeType) -> spec_fn(usize) -> NavEdge {
    |t: usize| NavEdge { from, to: t, edge_type }
}

proof fn lemma_ancestor_unique_end(came_from: Seq<Option<usize>>, v: usize, k: nat, i: nat)
    requires
        chain_ends_at(came_from, v, k),
        i < k,
    ensures
        ancestor(came_from, v, i) is Some,
        pred_of(came_from, ancestor(came_from, v, i)->0) is Some,
    decreases k - i,
{
    if i + 1 < k {
        lemma_ancestor_unique_end(came_from, v, k, i + 1);
    } else {
        assert(ancestor(came_from, v, k) == match ancestor(came_from, v, i) {
            Some(u) => pred_of(came_from, u),
            None => None,
        });
    }
}

/// Equal ancestors stay equal further back.
proof fn lemma_ancestor_shift(came_from: Seq<Option<usize>>, v: usize, i: nat, j: nat, t: nat)
    requires
        ancestor(came_from, v, i) == ancestor(came_from, v, j),
    ensures
        ancestor(came_from, v, i + t) == ancestor(came_from, v, j + t),
    decreases t,
{
    if t > 0 {
        let t1 = (t - 1) as nat;
        lemma_ancestor_shift(came_from, v, i, j, t1);
        assert(ancestor(came_from, v, i + t) == match ancestor(came_from, v, i + t1) {
            Some(u) => pred_of(came_from, u),
            None => None,
        });
        assert(ancestor(came_from, v, j + t) == match ancestor(came_from, v, j + t1) {
            Some(u) => pred_of(came_from, u),
            None => None,
        });
    }
}

/// Before a chain ends, no node comes back.
proof fn lemma_chain_distinct(came_from: Seq<Option<usize>>, v: usize, k: nat, i: nat, j: nat)
    requires
        chain_ends_at(came_from, v, k),
        i < j < k,
    ensures
        ancestor(came_from, v, i) != ancestor(came_from, v, j),
{
    if ancestor(came_from, v, i) == ancestor(came_from, v, j) {
        let t = (k - j) as nat;
        lemma_ancestor_shift(came_from, v, i, j, t);
        assert(j + t == k);
        lemma_ancestor_unique_end(came_from, v, k, i + t);
    }
}

/// Law: following recorded predecessors back from a node either ends
/// within as many steps as there are records, or never ends.
pub proof fn lemma_chain_end_bounded(came_from: Seq<Option<usize>>, v: usize, k: nat)
    requires
        chain_ends_at(came_from, v, k),
    ensures
        k <= came_from.len(),
{
    broadcast use vstd::set::group_set_axioms;

    let s = Seq::new(k, |i: int| ancestor(came_from, v, i as nat)->0 as int);
    assert forall|i: int, j: int| 0 <= i < s.len() && 0 <= j < s.len() && i != j implies s[i] != s[j] by {
        lemma_ancestor_unique_end(came_from, v, k, i as nat);
        lemma_ancestor_unique_end(came_from, v, k, j as nat);
        if i < j {
            lemma_chain_distinct(came_from, v, k, i as nat, j as nat);
        } else {
            lemma_chain_distinct(came_from, v, k, j as nat, i as nat);
        }
    }
    assert(s.no_duplicates());
    s.unique_seq_to_set();
    let range = vstd::set_lib::set_int_range(0, came_from.len() as int);
    assert forall|x: int| s.to_set().contains(x) implies range.contains(x) by {
        let i = choose|i: int| 0 <= i < s.len() && s[i] == x;
        lemma_ancestor_unique_end(came_from, v, k, i as nat);
    }
    vstd::set_lib::lemma_int_range(0, came_from.len() as int);
    vstd::set_lib::lemma_len_subset(s.to_set(), range);
}

/// Law: the edges that `add_selected_edges` adds go to distinct nodes,
/// each of them a selected one.
pub proof fn lemma_selected_targets_distinct(sel: Seq<Option<usize>>)
    ensures
        distinct_targets(sel).no_duplicates(),
        forall|t: usize| #[trigger] distinct_targets(sel).contains(t) ==> sel.contains(Some(t)),
        forall|i: int| 0 <= i < sel.len() && (#[trigger] sel[i]) is Some ==> distinct_targets(sel).contains(sel[i]->0),
    decreases sel.len(),
{
    if sel.len() > 0 {
        lemma_selected_targets_distinct(sel.drop_last());
        let rest = distinct_targets(sel.drop_last());
        assert forall|i: int| 0 <= i < sel.len() && (#[trigger] sel[i]) is Some implies distinct_targets(
            sel,
        ).contains(sel[i]->0) by {
            let t = sel[i]->0;
            if i < sel.len() - 1 {
                assert(sel.drop_last()[i] == Some(t));
                assert(rest.contains(t));
                let k = choose|k: int| 0 <= k < rest.len() && rest[k] == t;
                if !rest.contains(t) {
                } else {
                    match sel.last() {
                        Some(u) => if !rest.contains(u) {
                            assert(distinct_targets(sel)[k] == t);
                        },
                        None => {},
                    }
                }
            } else {
                if !rest.contains(t) {
                    assert(distinct_targets(sel)[rest.len() as int] == t);
                }
            }
        }
        assert forall|t: usize| #[trigger] distinct_targets(sel).contains(t) implies sel.contains(Some(t)) by {
            if rest.contains(t) {
                assert(sel.drop_last().contains(Some(t)));
                let k = choose|k: int| 0 <= k < sel.drop_last().len() && sel.drop_last()[k] == Some(t);
                assert(sel[k] == Some(t));
            } else {
                assert(sel[sel.len() - 1] == Some(t));
            }
        }
    }
}

/// Law of `add_selected_edges`: every selected target gets exactly one new
/// edge from `from` of the given kind, and every new edge goes to a
/// selected target; the number added is the number of different selected
/// targets.
pub proof fn lemma_selected_edges_complete(
    old_edges: Seq<NavEdge>,
    from: usize,
    edge_type: NavEdgeType,
    sel: Seq<Option<usize>>,
)
    ensures
        ({
            let added = distinct_targets(sel).map_values(edge_to(from, edge_type));
            &&& forall|i: int|
                0 <= i < sel.len() && (#[trigger] sel[i]) is Some ==> (old_edges + added).contains(
                    NavEdge { from, to: sel[i]->0, edge_type },
                )
            &&& forall|k: int|
                0 <= k < added.len() ==> (#[trigger] added[k]).from == from && added[k].edge_type == edge_type
                    && sel.contains(Some(added[k].to))
            &&& forall|a: int, b: int| 0 <= a < b < added.len() ==> (#[trigger] added[a]).to != (#[trigger] added[b]).to
        }),
{
    lemma_selected_targets_distinct(sel);
    let d = distinct_targets(sel);
    let added = d.map_values(edge_to(from, edge_type));
    assert forall|i: int| 0 <= i < sel.len() && (#[trigger] sel[i]) is Some implies (old_edges
        + added).contains(NavEdge { from, to: sel[i]->0, edge_type }) by {
        let t = sel[i]->0;
        assert(d.contains(t));
        let k = choose|k: int| 0 <= k < d.len() && d[k] == t;
        assert((old_edges + added)[old_edges.len() + k] == NavEdge { from, to: t, edge_type });
    }
    assert forall|k: int| 0 <= k < added.len() implies (#[trigger] added[k]).from == from && added[k].edge_type
        == edge_type && sel.contains(Some(added[k].to)) by {
        assert(d.contains(d[k]));
    }
    assert forall|a: int, b: int| 0 <= a < b < added.len() implies (#[trigger] added[a]).to != (
    #[trigger] added[b]).to by {
        assert(d[a] != d[b]);
    }
}

impl NavGraph {
    /// Every edge joins two existing nodes.
    pub open spec fn edges_in_range(&self) -> bool {
        forall|j: int|
            0 <= j < self.edges@.len() ==> #[trigger] self.edges@[j].from < self.nodes@.len()
                && self.edges@[j].to < self.nodes@.len()
    }

    /// Every node's `id` is its index and every edge joins two existing nodes.
    pub open spec fn wf(&self) -> bool {
        &&& forall|i: int| 0 <= i < self.nodes@.len() ==> #[trigger] self.nodes@[i].id == i
        &&& self.edges_in_range()
    }

    pub fn new() -> (g: Self)
        ensures
            g.nodes@.len() == 0,
            g.edges@.len() == 0,
            g.wf(),
    {
        NavGraph { nodes: Vec::new(), edges: Vec::new() }
    }


    /// Appends a node of the given kind; its id is the previous node count.
    pub fn add_node(&mut self, node_type: NavNodeType) -> (id: usize)
        ensures
            id == old(self).nodes@.len(),
            final(self).nodes@ == old(self).nodes@.push(NavNode { id, node_type }),
            final(self).edges@ == old(self).edges@,
            old(self).wf() ==> final(self).wf(),
    {
        let id = self.nodes.len();
        self.nodes.push(NavNode { id, node_type });
        proof {
            if old(self).wf() {
                assert forall|j: int| 0 <= j < self.edges@.len() implies #[trigger] self.edges@[j].from
                    < self.nodes@.len() && self.edges@[j].to < self.nodes@.len() by {
                    assert(old(self).edges@[j] == self.edges@[j]);
                }
            }
        }
        id
    }

    /// Appends the edge `from -> to`; both ends must be existing nodes.
    pub fn add_edge(&mut self, from: usize, to: usize, edge_type: NavEdgeType)
        requires
            from < old(self).nodes@.len(),
            to < old(self).nodes@.len(),
        ensures
            final(self).nodes@ == old(self).nodes@,
            final(self).edges@ == old(self).edges@.push(NavEdge { from, to, edge_type }),
            old(self).wf() ==> final(self).wf(),
    {
        self.edges.push(NavEdge { from, to, edge_type });
        proof {
            if old(self).wf() {
                assert forall|j: int| 0 <= j < self.edges@.len() implies #[trigger] self.edges@[j].from
                    < self.nodes@.len() && self.edges@[j].to < self.nodes@.len() by {
                    if j < old(self).edges@.len() {
                        assert(old(self).edges@[j] == self.edges@[j]);
                    }
                }
            }
        }
    }

    /// Whether an edge `from -> to` of the given kind exists.
    pub fn has_edge(&self, from: usize, to: usize, edge_type: NavEdgeType) -> (found: bool)
        ensures
            found == exists|j: int|
                0 <= j < self.edges@.len() && #[trigger] self.edges@[j] == (NavEdge { from, to, edge_type }),
    {
        let mut j: usize = 0;
        while j < self.edges.len()
            invariant
                j <= self.edges@.len(),
                forall|jj: int| 0 <= jj < j ==> #[trigger] self.edges@[jj] != (NavEdge { from, to, edge_type }),
            decreases self.edges@.len() - j,
        {
            let e = self.edges[j];
            if e.from == from && e.to == to && e.edge_type == edge_type {
                assert(self.edges@[j as int] == (NavEdge { from, to, edge_type }));
                return true;
            }
            j += 1;
        }
        false
    }

    /// Adds one edge of the given kind from `from` to each selected target,
    /// skipping a target already taken by an earlier selection; returns
    /// the number of edges added.
    pub fn add_selected_edges(
        &mut self,
        from: usize,
        edge_type: NavEdgeType,
        selections: [Option<usize>; 3],
    ) -> (added: usize)
        requires
            from < old(self).nodes@.len(),
            forall|i: int| 0 <= i < 3 ==> (#[trigger] selections@[i] matches Some(t) ==> t < old(self).nodes@.len()),
        ensures
            added == distinct_targets(selections@).len(),
            final(self).nodes@ == old(self).nodes@,
            final(self).edges@ == old(self).edges@ + distinct_targets(selections@).map_values(edge_to(from, edge_type)),
            old(self).wf() ==> final(self).wf(),
    {
        let mut added: usize = 0;
        let mut used: Vec<usize> = Vec::new();
        let mut i: usize = 0;
        let ghost edges0 = self.edges@;
        while i < 3
            invariant
                i <= 3,
                self.nodes@ == old(self).nodes@,
                edges0 == old(self).edges@,
                from < self.nodes@.len(),
                forall|k: int| 0 <= k < 3 ==> (#[trigger] selections@[k] matches Some(t) ==> t < self.nodes@.len()),
                used@ == distinct_targets(selections@.take(i as int)),
                added == used@.len(),
                added <= i,
                self.edges@ == edges0 + used@.map_values(edge_to(from, edge_type)),
                old(self).wf() ==> self.wf(),
            decreases 3 - i,
        {
            proof {
                assert(selections@.take(i + 1).drop_last() =~= selections@.take(i as int));
            }
            if let Some(target) = selections[i] {
                let mut seen = false;
                let mut k: usize = 0;
                while k < used.len()
                    invariant
                        k <= used@.len(),
                        seen == exists|q: int| 0 <= q < k && used@[q] == target,
                    decreases used@.len() - k,
                {
                    if used[k] == target {
                        seen = true;
                    }
                    k += 1;
                }
                if !seen {
                    let ghost eb = self.edges@;
                    self.add_edge(from, target, edge_type);
                    used.push(target);
                    added += 1;
                    proof {
                        assert(self.edges@ =~= edges0 + used@.map_values(edge_to(from, edge_type)));
                    }
                }
            }
            i += 1;
        }
        proof {
            assert(selections@.take(3) =~= selections@);
        }
        added
    }

    /// Rebuilds the route that ends at `current` by following the recorded
    /// predecessors back until a node without one; the route is returned
    /// from its first node to `current`.
    pub fn reconstruct_path(&self, came_from: &Vec<Option<usize>>, current: usize) -> (path: Vec<usize>)
        requires
            exists|k: nat| chain_ends_at(came_from@, current, k),
        ensures
            path@.len() == chain_depth(came_from@, current) + 1,
            forall|i: int|
                0 <= i < path@.len() ==> Some(#[trigger] path@[i]) == ancestor(
                    came_from@,
                    current,
                    (path@.len() - 1 - i) as nat,
                ),
    {
        let ghost cf = came_from@;
        let ghost depth = chain_depth(cf, current);
        let mut back: Vec<usize> = Vec::new();
        back.push(current);
        let mut cur = current;
        let ghost mut steps: nat = 0;
        loop
            invariant_except_break
                chain_ends_at(cf, current, depth),
                cf == came_from@,
                steps <= depth,
                back@.len() == steps + 1,
                ancestor(cf, current, steps) == Some(cur),
                forall|i: int| 0 <= i < back@.len() ==> Some(#[trigger] back@[i]) == ancestor(cf, current, i as nat),
            ensures
                back@.len() == depth + 1,
                forall|i: int| 0 <= i < back@.len() ==> Some(#[trigger] back@[i]) == ancestor(cf, current, i as nat),
            decreases depth - steps,
        {
            let next = if cur < came_from.len() {
                came_from[cur]
            } else {
                None
            };
            proof {
                assert(next == pred_of(cf, cur));
                if steps < depth {
                    lemma_ancestor_unique_end(cf, current, depth, steps);
                }
            }
            match next {
                Some(prev) => {
                    proof {
                        assert(ancestor(cf, current, steps + 1) == Some(prev));
                    }
                    back.push(prev);
                    cur = prev;
                    proof {
                        steps = steps + 1;
                    }
                },
                None => {
                    break;
                },
            }
        }
        let mut path: Vec<usize> = Vec::new();
        let mut i = back.len();
        while i > 0
            invariant
                i <= back@.len(),
                path@.len() == back@.len() - i,
                forall|q: int| 0 <= q < path@.len() ==> #[trigger] path@[q] == back@[back@.len() - 1 - q],
            decreases i,
        {
            i -= 1;
            path.push(back[i]);
        }
        proof {
            assert forall|q: int| 0 <= q < path@.len() implies Some(#[trigger] path@[q]) == ancestor(
                cf,
                current,
                (path@.len() - 1 - q) as nat,
            ) by {
                assert(Some(back@[back@.len() - 1 - q]) == ancestor(cf, current, (back@.len() - 1 - q) as nat));
            }
        }
        path
    }

    /// The route that ends at `current`, when following the recorded
    /// predecessors back from it stops; `None` when it never does (the
    /// records run in a cycle).
    pub fn path_to(&self, came_from: &Vec<Option<usize>>, current: usize) -> (r: Option<Vec<usize>>)
        ensures
            r is Some <==> exists|k: nat| chain_ends_at(came_from@, current, k),
            r matches Some(path) ==> {
                &&& path@.len() == chain_depth(came_from@, current) + 1
                &&& forall|i: int|
                    0 <= i < path@.len() ==> Some(#[trigger] path@[i]) == ancestor(
                        came_from@,
                        current,
                        (path@.len() - 1 - i) as nat,
                    )
            },
    {
        let ghost cf = came_from@;
        let n = came_from.len();
        let mut cur = current;
        let mut steps: usize = 0;
        loop
            invariant
                cf == came_from@,
                n == cf.len(),
                steps <= n,
                ancestor(cf, current, steps as nat) == Some(cur),
                forall|k: nat| k < steps ==> !#[trigger] chain_ends_at(cf, current, k),
            decreases n - steps,
        {
            let next = if cur < n {
                came_from[cur]
            } else {
                None
            };
            assert(next == pred_of(cf, cur));
            match next {
                None => {
                    assert(chain_ends_at(cf, current, steps as nat));
                    let p = self.reconstruct_path(came_from, current);
                    return Some(p);
                },
                Some(prev) => {
                    assert(!chain_ends_at(cf, current, steps as nat));
                    assert(ancestor(cf, current, (steps + 1) as nat) == Some(prev));
                    if steps == n {
                        assert forall|k: nat| !#[trigger] chain_ends_at(cf, current, k) by {
                            if chain_ends_at(cf, current, k) {
                                lemma_chain_end_bounded(cf, current, k);
                            }
                        }
                        return None;
                    }
                    steps += 1;
                    cur = prev;
                },
            }
        }
    }

    /// Partitions the nodes into connected parts, edge directions ignored.
    /// Parts are found in increasing order of their smallest node; each is
    /// listed from that node on, in the order a depth-first search with a
    /// stack reaches its nodes (`search_parts`).
    pub fn find_connected_components(&self) -> (comps: Vec<Vec<usize>>)
        requires
            self.edges_in_range(),
        ensures
            valid_components(self.nodes@.len(), self.edges@, components_view(comps@)),
            components_view(comps@) == search_parts(self.nodes@.len(), self.edges@),
    {
        let n = self.nodes.len();
        let m = self.edges.len();
        let ghost edges = self.edges@;
        let mut visited: Vec<bool> = Vec::new();
        let mut i: usize = 0;
        while i < n
            invariant
                i <= n,
                visited@.len() == i,
                forall|k: int| 0 <= k < i ==> !#[trigger] visited@[k],
            decreases n - i,
        {
            visited.push(false);
            i += 1;
        }
        assert(visited@ =~= Seq::new(n as nat, |k: int| false));
        let mut components: Vec<Vec<usize>> = Vec::new();
        let ghost mut cs: Seq<Seq<usize>> = Seq::empty();
        let mut start_node: usize = 0;
        while start_node < n
            invariant
                n == self.nodes@.len(),
                m == edges.len(),
                edges == self.edges@,
                self.edges_in_range(),
                visited@.len() == n,
                start_node <= n,
                cs =~= components_view(components@),
                forall|v: usize| v < n ==> (#[trigger] visited@[v as int] <==> in_some(cs, v)),
                forall|v: int| 0 <= v < start_node ==> #[trigger] visited@[v],
                forall|v: usize| v < start_node ==> #[trigger] in_some(cs, v),
                forall|c: int| 0 <= c < cs.len() ==> #[trigger] cs[c].len() > 0,
                forall|c: int| 0 <= c < cs.len() ==> #[trigger] cs[c].no_duplicates(),
                forall|c: int, k: int| 0 <= c < cs.len() && 0 <= k < cs[c].len() ==> #[trigger] cs[c][k] < n,
                forall|c1: int, c2: int, v: usize|
                    0 <= c1 < cs.len() && 0 <= c2 < cs.len() && #[trigger] cs[c1].contains(v)
                        && #[trigger] cs[c2].contains(v) ==> c1 == c2,
                forall|c: int, k: int|
                    0 <= c < cs.len() && 0 <= k < cs[c].len() ==> #[trigger] connected(edges, cs[c][0], cs[c][k]),
                forall|c: int| 0 <= c < cs.len() ==> #[trigger] closed_set(edges, cs[c]),
                forall|c: int, k: int|
                    0 <= c < cs.len() && 0 <= k < cs[c].len() ==> cs[c][0] <= #[trigger] cs[c][k],
                forall|c1: int, c2: int|
                    0 <= c1 < c2 < cs.len() ==> #[trigger] cs[c1][0] < #[trigger] cs[c2][0],
                forall|c: int| 0 <= c < cs.len() ==> #[trigger] cs[c][0] < start_node,
                parts_upto(edges, n as nat, start_node as nat).0 == visited@,
                parts_upto(edges, n as nat, start_node as nat).1 == cs,
            decreases n - start_node,
        {
            if visited[start_node] {
                proof {
                    assert(in_some(cs, start_node));
                    assert forall|v: usize| v < start_node + 1 implies #[trigger] in_some(cs, v) by {
                        if v < start_node {
                            assert(in_some(cs, v));
                        }
                    }
                }
                start_node += 1;
                continue;
            }
            let ghost s = start_node;
            let ghost vis0 = visited@;
            let ghost init = Search { visited: vis0.update(s as int, true), stack: seq![s], part: Seq::empty() };
            let mut component: Vec<usize> = Vec::new();
            let mut queue: Vec<usize> = Vec::new();
            queue.push(start_node);
            visited.set(start_node, true);
            proof {
                lemma_connected_refl(edges, s);
                assert forall|v: usize| v < n implies (#[trigger] visited@[v as int] <==> (in_some(cs, v)
                    || component@.contains(v) || queue@.contains(v))) by {
                    if v == s {
                        assert(queue@[0] == v);
                    }
                }
            }
            while queue.len() > 0
                invariant
                    n == self.nodes@.len(),
                    m == edges.len(),
                    edges == self.edges@,
                    self.edges_in_range(),
                    visited@.len() == n,
                    s == start_node,
                    start_node < n,
                    cs =~= components_view(components@),
                    forall|v: usize| v < n ==> (#[trigger] visited@[v as int] <==> (in_some(cs, v)
                        || component@.contains(v) || queue@.contains(v))),
                    forall|v: int| 0 <= v < start_node ==> #[trigger] visited@[v],
                forall|v: usize| v < start_node ==> #[trigger] in_some(cs, v),
                    forall|c: int| 0 <= c < cs.len() ==> #[trigger] cs[c].len() > 0,
                    forall|c: int| 0 <= c < cs.len() ==> #[trigger] cs[c].no_duplicates(),
                    forall|c: int, k: int|
                        0 <= c < cs.len() && 0 <= k < cs[c].len() ==> #[trigger] cs[c][k] < n,
                    forall|c1: int, c2: int, v: usize|
                        0 <= c1 < cs.len() && 0 <= c2 < cs.len() && #[trigger] cs[c1].contains(v)
                            && #[trigger] cs[c2].contains(v) ==> c1 == c2,
                    forall|c: int, k: int|
                        0 <= c < cs.len() && 0 <= k < cs[c].len() ==> #[trigger] connected(
                            edges,
                            cs[c][0],
                            cs[c][k],
                        ),
                    forall|c: int| 0 <= c < cs.len() ==> #[trigger] closed_set(edges, cs[c]),
                    forall|c: int, k: int|
                        0 <= c < cs.len() && 0 <= k < cs[c].len() ==> cs[c][0] <= #[trigger] cs[c][k],
                    forall|c1: int, c2: int|
                        0 <= c1 < c2 < cs.len() ==> #[trigger] cs[c1][0] < #[trigger] cs[c2][0],
                    forall|c: int| 0 <= c < cs.len() ==> #[trigger] cs[c][0] < start_node,
                    // the part being collected
                    component@.no_duplicates(),
                    queue@.no_duplicates(),
                    forall|v: usize| !(#[trigger] component@.contains(v) && queue@.contains(v)),
                    forall|v: usize| #[trigger] component@.contains(v) ==> !in_some(cs, v),
                    forall|v: usize| #[trigger] queue@.contains(v) ==> !in_some(cs, v),
                    forall|k: int| 0 <= k < component@.len() ==> #[trigger] component@[k] < n,
                    forall|k: int| 0 <= k < queue@.len() ==> #[trigger] queue@[k] < n,
                    forall|k: int|
                        0 <= k < component@.len() ==> #[trigger] connected(edges, s, component@[k]),
                    forall|k: int| 0 <= k < queue@.len() ==> #[trigger] connected(edges, s, queue@[k]),
                    component@.len() == 0 ==> queue@ == seq![s],
                    component@.len() > 0 ==> component@[0] == s,
                    forall|j: int|
                        0 <= j < edges.len() && #[trigger] component@.contains(edges[j].from)
                            ==> visited@[edges[j].to as int],
                    forall|j: int|
                        0 <= j < edges.len() && #[trigger] component@.contains(edges[j].to)
                            ==> visited@[edges[j].from as int],
                    parts_upto(edges, n as nat, start_node as nat).0 == vis0,
                    parts_upto(edges, n as nat, start_node as nat).1 == cs,
                    !vis0[s as int],
                    vis0.len() == n,
                    init == (Search { visited: vis0.update(s as int, true), stack: seq![s], part: Seq::empty() }),
                    search(edges, init, component@.len() as nat) == (Search {
                        visited: visited@,
                        stack: queue@,
                        part: component@,
                    }),
                decreases count_false(visited@), queue@.len(),
            {
                let ghost q_old = queue@;
                let ghost st = Search { visited: visited@, stack: queue@, part: component@ };
                proof {
                    lemma_search_succ(edges, init, component@.len() as nat);
                }
                let current = queue.pop().unwrap();
                let ghost comp_before = component@;
                let ghost cf0 = count_false(visited@);
                let ghost q0 = queue@.len();
                proof {
                    assert(q_old =~= queue@.push(current));
                    assert(q_old[q_old.len() - 1] == current);
                    assert(!comp_before.contains(current));
                }
                component.push(current);
                proof {
                    assert forall|v: usize|
                        (q_old.contains(v) || comp_before.contains(v)) <==> (#[trigger] queue@.contains(v)
                            || component@.contains(v)) by {
                        if q_old.contains(v) {
                            let k = choose|k: int| 0 <= k < q_old.len() && q_old[k] == v;
                            if k == q_old.len() - 1 {
                                assert(component@[comp_before.len() as int] == v);
                            } else {
                                assert(queue@[k] == v);
                            }
                        }
                        if queue@.contains(v) {
                            let k = choose|k: int| 0 <= k < queue@.len() && queue@[k] == v;
                            assert(q_old[k] == v);
                        }
                        if component@.contains(v) {
                            let k = choose|k: int| 0 <= k < component@.len() && component@[k] == v;
                            if k < comp_before.len() {
                                assert(comp_before[k] == v);
                            } else {
                                assert(q_old[q_old.len() - 1] == v);
                            }
                        }
                        if comp_before.contains(v) {
                            let k = choose|k: int| 0 <= k < comp_before.len() && comp_before[k] == v;
                            assert(component@[k] == v);
                        }
                    }
                    assert(!queue@.contains(current)) by {
                        if queue@.contains(current) {
                            let k = choose|k: int| 0 <= k < queue@.len() && queue@[k] == current;
                            assert(q_old[k] == q_old[q_old.len() - 1]);
                        }
                    }
                    assert(!in_some(cs, current));
                    assert forall|v: usize| #[trigger] component@.contains(v) implies !in_some(cs, v) && !queue@.contains(v) by {
                        if v != current {
                            assert(comp_before.contains(v));
                            if queue@.contains(v) {
                                assert(q_old.contains(v));
                            }
                        }
                    }
                    assert(component@.no_duplicates()) by {
                        assert forall|a: int, b: int|
                            0 <= a < component@.len() && 0 <= b < component@.len() && a != b implies
                            component@[a] != component@[b] by {
                            if a < comp_before.len() && b < comp_before.len() {
                            } else if a < comp_before.len() {
                                assert(comp_before.contains(component@[a]));
                            } else {
                                assert(comp_before.contains(component@[b]));
                            }
                        }
                    }
                    assert forall|k: int| 0 <= k < queue@.len() implies #[trigger] queue@[k] < n by {
                        assert(q_old[k] == queue@[k]);
                    }
                    assert(queue@.no_duplicates()) by {
                        assert forall|a: int, b: int|
                            0 <= a < queue@.len() && 0 <= b < queue@.len() && a != b implies
                            queue@[a] != queue@[b] by {
                            assert(q_old[a] == queue@[a] && q_old[b] == queue@[b]);
                        }
                    }
                }
                let ghost vis_p = visited@;
                let ghost q_p = queue@;
                assert(vis_p == st.visited);
                assert(q_p =~= q_old.drop_last());
                assert(current == q_old.last());
                assert(scan_edges(edges, current, vis_p, q_p, 0) == (visited@, queue@));
                let mut j: usize = 0;
                while j < m
                    invariant
                        scan_edges(edges, current, vis_p, q_p, j as nat) == (visited@, queue@),
                        n == self.nodes@.len(),
                        m == edges.len(),
                        edges == self.edges@,
                        self.edges_in_range(),
                        visited@.len() == n,
                        s == start_node,
                        start_node < n,
                        j <= m,
                        current < n,
                        connected(edges, s, current),
                        component@ == comp_before.push(current),
                        cs =~= components_view(components@),
                        forall|v: usize| v < n ==> (#[trigger] visited@[v as int] <==> (in_some(cs, v)
                            || component@.contains(v) || queue@.contains(v))),
                        forall|v: int| 0 <= v < start_node ==> #[trigger] visited@[v],
                forall|v: usize| v < start_node ==> #[trigger] in_some(cs, v),
                        forall|c: int| 0 <= c < cs.len() ==> #[trigger] closed_set(edges, cs[c]),
                        forall|c1: int, c2: int, v: usize|
                            0 <= c1 < cs.len() && 0 <= c2 < cs.len() && #[trigger] cs[c1].contains(v)
                                && #[trigger] cs[c2].contains(v) ==> c1 == c2,
                        component@.no_duplicates(),
                        queue@.no_duplicates(),
                        forall|v: usize| !(#[trigger] component@.contains(v) && queue@.contains(v)),
                        forall|v: usize| #[trigger] component@.contains(v) ==> !in_some(cs, v),
                        forall|v: usize| #[trigger] queue@.contains(v) ==> !in_some(cs, v),
                        forall|k: int| 0 <= k < component@.len() ==> #[trigger] component@[k] < n,
                        forall|k: int| 0 <= k < queue@.len() ==> #[trigger] queue@[k] < n,
                        forall|k: int|
                            0 <= k < component@.len() ==> #[trigger] connected(edges, s, component@[k]),
                        forall|k: int|
                            0 <= k < queue@.len() ==> #[trigger] connected(edges, s, queue@[k]),
                        component@[0] == s,
                        forall|jj: int|
                            0 <= jj < edges.len() && #[trigger] comp_before.contains(edges[jj].from)
                                ==> visited@[edges[jj].to as int],
                        forall|jj: int|
                            0 <= jj < edges.len() && #[trigger] comp_before.contains(edges[jj].to)
                                ==> visited@[edges[jj].from as int],
                        forall|jj: int|
                            0 <= jj < j && #[trigger] edges[jj].from == current
                                ==> visited@[edges[jj].to as int],
                        forall|jj: int|
                            0 <= jj < j && #[trigger] edges[jj].to == current
                                ==> visited@[edges[jj].from as int],
                        count_false(visited@) + queue@.len() == cf0 + q0,
                        queue@.len() >= q0,
                    decreases m - j,
                {
                    let e = self.edges[j];
                    assert(e == edges[j as int]);
                    if e.from == current && !visited[e.to] {
                        proof {
                            assert(!in_some(cs, e.to) && !component@.contains(e.to) && !queue@.contains(e.to));
                            lemma_count_false_set(visited@, e.to as int);
                            lemma_connected_extend(edges, s, current, e.to, j as int);
                        }
                        let ghost qb = queue@;
                        visited.set(e.to, true);
                        queue.push(e.to);
                        proof {
                            assert forall|v: usize| #[trigger] queue@.contains(v) <==> (qb.contains(v) || v == e.to) by {
                                if queue@.contains(v) {
                                    let k = choose|k: int| 0 <= k < queue@.len() && queue@[k] == v;
                                    if k < qb.len() {
                                        assert(qb[k] == v);
                                    }
                                }
                                if qb.contains(v) {
                                    let k = choose|k: int| 0 <= k < qb.len() && qb[k] == v;
                                    assert(queue@[k] == v);
                                }
                                if v == e.to {
                                    assert(queue@[qb.len() as int] == v);
                                }
                            }
                        }
                    }
                    if e.to == current && !visited[e.from] {
                        proof {
                            assert(!in_some(cs, e.from) && !component@.contains(e.from) && !queue@.contains(e.from));
                            lemma_count_false_set(visited@, e.from as int);
                            lemma_connected_extend(edges, s, current, e.from, j as int);
                        }
                        let ghost qb = queue@;
                        visited.set(e.from, true);
                        queue.push(e.from);
                        proof {
                            assert forall|v: usize| #[trigger] queue@.contains(v) <==> (qb.contains(v) || v == e.from) by {
                                if queue@.contains(v) {
                                    let k = choose|k: int| 0 <= k < queue@.len() && queue@[k] == v;
                                    if k < qb.len() {
                                        assert(qb[k] == v);
                                    }
                                }
                                if qb.contains(v) {
                                    let k = choose|k: int| 0 <= k < qb.len() && qb[k] == v;
                                    assert(queue@[k] == v);
                                }
                                if v == e.from {
                                    assert(queue@[qb.len() as int] == v);
                                }
                            }
                        }
                    }
                    j += 1;
                }
                proof {
                    assert(search_step(edges, st) == (Search { visited: visited@, stack: queue@, part: component@ }));
                }
            }
            proof {
                lemma_distinct_below(component@, n as nat);
                lemma_search_done(edges, init, component@.len() as nat, n as nat);
                assert(search(edges, init, n as nat) == (Search { visited: visited@, stack: queue@, part: component@ }));
            }
            proof {
                // No edge leaves the collected part.
                assert forall|jj: int| 0 <= jj < edges.len() implies (component@.contains(
                    #[trigger] edges[jj].from,
                ) <==> component@.contains(edges[jj].to)) by {
                    let a = edges[jj].from;
                    let b = edges[jj].to;
                    if component@.contains(a) && !component@.contains(b) {
                        assert(in_some(cs, b));
                        let c = choose|c: int| 0 <= c < cs.len() && #[trigger] cs[c].contains(b);
                        assert(closed_set(edges, cs[c]));
                        assert(cs[c].contains(a));
                    }
                    if component@.contains(b) && !component@.contains(a) {
                        assert(in_some(cs, a));
                        let c = choose|c: int| 0 <= c < cs.len() && #[trigger] cs[c].contains(a);
                        assert(closed_set(edges, cs[c]));
                        assert(cs[c].contains(b));
                    }
                }
            }
            let ghost old_cs = cs;
            components.push(component);
            proof {
                cs = cs.push(component@);
                assert(cs =~= components_view(components@));
                assert forall|v: usize| v < n implies (#[trigger] visited@[v as int] <==> in_some(cs, v)) by {
                    if in_some(old_cs, v) {
                        let c = choose|c: int| 0 <= c < old_cs.len() && #[trigger] old_cs[c].contains(v);
                        assert(cs[c].contains(v));
                    }
                    if component@.contains(v) {
                        assert(cs[cs.len() - 1].contains(v));
                    }
                    if in_some(cs, v) {
                        let c = choose|c: int| 0 <= c < cs.len() && #[trigger] cs[c].contains(v);
                        if c < old_cs.len() {
                            assert(old_cs[c].contains(v));
                        }
                    }
                }
                assert forall|v: usize| v < start_node + 1 implies #[trigger] in_some(cs, v) by {
                    if v < start_node {
                        assert(in_some(old_cs, v));
                        let c = choose|c: int| 0 <= c < old_cs.len() && #[trigger] old_cs[c].contains(v);
                        assert(cs[c].contains(v));
                    } else {
                        assert(component@[0] == v);
                        assert(cs[cs.len() - 1].contains(v));
                    }
                }
                assert forall|c: int, k: int|
                    0 <= c < cs.len() && 0 <= k < cs[c].len() implies cs[c][0] <= #[trigger] cs[c][k] by {
                    if c == cs.len() - 1 {
                        let v = cs[c][k];
                        assert(component@.contains(v));
                        if v < start_node {
                            assert(in_some(old_cs, v));
                        }
                    }
                }
            }
            start_node += 1;
        }
        proof {
            assert forall|c: int, v: usize|
                0 <= c < cs.len() && #[trigger] connected(edges, cs[c][0], v) implies cs[c].contains(v) by {
                assert(closed_set(edges, cs[c]));
                assert(cs[c].contains(cs[c][0]));
                lemma_closed_connected(edges, cs[c], cs[c][0], v);
            }
            assert forall|v: usize| v < n implies #[trigger] in_some(cs, v) by {
                assert(visited@[v as int]);
            }
        }
        components
    }
}

} // verus!
