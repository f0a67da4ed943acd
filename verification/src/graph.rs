//! Cycle detection in directed graphs by repeated removal of sources.
//!
//! A graph is an adjacency list: `adj[a]` holds the heads of the edges that
//! leave node `a`. A head outside the node range is no edge.

use vstd::prelude::*;
use vstd::set_lib::*;
use std::collections::VecDeque;

verus! {

// ---------------------------------------------------------------
// Model
// ---------------------------------------------------------------

/// True when an edge leads from node `a` to node `b`.
pub open spec fn edge(adj: Seq<Vec<usize>>, a: int, b: int) -> bool {
    0 <= a < adj.len() && 0 <= b < adj.len() && exists|k: int|
        0 <= k < adj[a]@.len() && #[trigger] adj[a]@[k] == b
}

/// True when `path` walks along edges and ends where it began.
pub open spec fn is_cycle(adj: Seq<Vec<usize>>, path: Seq<int>) -> bool {
    &&& path.len() >= 2
    &&& path.first() == path.last()
    &&& forall|i: int| 0 <= i < path.len() - 1 ==> edge(adj, #[trigger] path[i], path[i + 1])
}

/// True when some walk along edges returns to its start.
pub open spec fn has_cycle(adj: Seq<Vec<usize>>) -> bool {
    exists|path: Seq<int>| is_cycle(adj, path)
}

/// Occurrences of `b` in `heads` from position `k` on.
pub open spec fn count_from(heads: Seq<usize>, k: int, b: int) -> nat
    decreases heads.len() - k,
{
    if k < 0 || k >= heads.len() {
        0
    } else {
        (if heads[k] == b {
            1nat
        } else {
            0nat
        }) + count_from(heads, k + 1, b)
    }
}

/// Edges into `b` from the nodes `a..` that are not in `done`.
pub open spec fn pending(adj: Seq<Vec<usize>>, done: Set<int>, a: int, b: int) -> nat
    decreases adj.len() - a,
{
    if a < 0 || a >= adj.len() {
        0
    } else {
        (if done.contains(a) {
            0nat
        } else {
            count_from(adj[a]@, 0, b)
        }) + pending(adj, done, a + 1, b)
    }
}

/// Number of edges into `b`.
pub open spec fn in_degree(adj: Seq<Vec<usize>>, b: int) -> nat {
    pending(adj, Set::empty(), 0, b)
}

/// True when the in-degree of every node is a machine integer.
pub open spec fn degrees_fit(adj: Seq<Vec<usize>>) -> bool {
    forall|b: int| 0 <= b < adj.len() ==> #[trigger] in_degree(adj, b) <= usize::MAX
}

/// True when `done` is the set of nodes that no cycle leads to: it holds every
/// predecessor of its members, its members can be ranked along the edges, and
/// every node outside it has a predecessor outside it.
pub open spec fn settled(adj: Seq<Vec<usize>>, done: Set<int>, rank: Map<int, int>) -> bool {
    &&& done.finite()
    &&& forall|b: int| #[trigger] done.contains(b) ==> 0 <= b < adj.len()
    &&& forall|a: int, b: int|
        #[trigger] edge(adj, a, b) && done.contains(b) ==> done.contains(a) && rank[a] < rank[b]
    &&& forall|b: int|
        0 <= b < adj.len() && !#[trigger] done.contains(b) ==> exists|a: int|
            !done.contains(a) && #[trigger] edge(adj, a, b)
}

// ---------------------------------------------------------------
// Counting lemmas
// ---------------------------------------------------------------

proof fn lemma_count_positive(heads: Seq<usize>, k: int, b: int)
    requires
        0 <= k <= heads.len(),
    ensures
        count_from(heads, k, b) > 0 <==> exists|j: int| k <= j < heads.len() && #[trigger] heads[j] == b,
    decreases heads.len() - k,
{
    if k < heads.len() {
        lemma_count_positive(heads, k + 1, b);
        if heads[k] != b && count_from(heads, k + 1, b) == 0 {
            assert(forall|j: int| k <= j < heads.len() ==> #[trigger] heads[j] != b);
        }
    }
}

proof fn lemma_edge_counts(adj: Seq<Vec<usize>>, a: int, b: int)
    requires
        0 <= a < adj.len(),
        0 <= b < adj.len(),
    ensures
        edge(adj, a, b) <==> count_from(adj[a]@, 0, b) > 0,
{
    lemma_count_positive(adj[a]@, 0, b);
}

proof fn lemma_pending_remove(adj: Seq<Vec<usize>>, done: Set<int>, node: int, a: int, b: int)
    requires
        !done.contains(node),
        0 <= node < adj.len(),
        0 <= a <= adj.len(),
    ensures
        pending(adj, done, a, b) == pending(adj, done.insert(node), a, b) + if a <= node {
            count_from(adj[node]@, 0, b)
        } else {
            0
        },
    decreases adj.len() - a,
{
    if a < adj.len() {
        lemma_pending_remove(adj, done, node, a + 1, b);
    }
}

proof fn lemma_pending_bounds(adj: Seq<Vec<usize>>, done: Set<int>, from: int, a: int, b: int)
    requires
        0 <= from <= a < adj.len(),
        !done.contains(a),
    ensures
        count_from(adj[a]@, 0, b) <= pending(adj, done, from, b),
    decreases adj.len() - from,
{
    if from < a {
        lemma_pending_bounds(adj, done, from + 1, a, b);
    }
}

proof fn lemma_pending_source(adj: Seq<Vec<usize>>, done: Set<int>, from: int, b: int)
    requires
        0 <= from <= adj.len(),
        0 <= b < adj.len(),
        pending(adj, done, from, b) > 0,
    ensures
        exists|a: int| !done.contains(a) && #[trigger] edge(adj, a, b),
    decreases adj.len() - from,
{
    if from < adj.len() {
        if !done.contains(from) && count_from(adj[from]@, 0, b) > 0 {
            lemma_edge_counts(adj, from, b);
        } else {
            lemma_pending_source(adj, done, from + 1, b);
        }
    }
}

proof fn lemma_no_pending(adj: Seq<Vec<usize>>, done: Set<int>, b: int)
    requires
        0 <= b < adj.len(),
        pending(adj, done, 0, b) == 0,
    ensures
        forall|a: int| #[trigger] edge(adj, a, b) ==> done.contains(a),
{
    assert forall|a: int| #[trigger] edge(adj, a, b) implies done.contains(a) by {
        if !done.contains(a) {
            lemma_edge_counts(adj, a, b);
            lemma_pending_bounds(adj, done, 0, a, b);
        }
    }
}

// ---------------------------------------------------------------
// Settled sets and cycles
// ---------------------------------------------------------------

/// A set of numbers below `n` has at most `n` members, and all of them if it
/// has `n`.
pub proof fn lemma_bounded_set(n: int, done: Set<int>)
    requires
        0 <= n,
        forall|b: int| #[trigger] done.contains(b) ==> 0 <= b < n,
    ensures
        done.finite(),
        done.len() <= n,
        done.len() == n ==> forall|b: int| 0 <= b < n ==> #[trigger] done.contains(b),
{
    let all = set_int_range(0, n);
    lemma_int_range(0, n);
    assert(done.subset_of(all));
    lemma_set_subset_finite(all, done);
    lemma_len_subset(done, all);
    if done.len() == n {
        lemma_subset_equality(done, all);
    }
}

proof fn lemma_rank_grows(
    adj: Seq<Vec<usize>>,
    done: Set<int>,
    rank: Map<int, int>,
    path: Seq<int>,
    i: int,
)
    requires
        settled(adj, done, rank),
        forall|b: int| 0 <= b < adj.len() ==> #[trigger] done.contains(b),
        is_cycle(adj, path),
        1 <= i < path.len(),
    ensures
        rank[path[0]] < rank[path[i]],
    decreases i,
{
    assert(edge(adj, path[i - 1], path[i - 1 + 1]));
    assert(done.contains(path[i]));
    if i > 1 {
        lemma_rank_grows(adj, done, rank, path, i - 1);
    }
}

/// The walk of `len` nodes that ends in `b` and takes each node's chosen
/// predecessor outside `done`, listed from the end.
spec fn backward_walk(adj: Seq<Vec<usize>>, done: Set<int>, b: int, len: nat) -> Seq<int>
    decreases len,
{
    if len == 0 {
        seq![b]
    } else {
        let walk = backward_walk(adj, done, b, (len - 1) as nat);
        walk.push(choose|a: int| !done.contains(a) && #[trigger] edge(adj, a, walk.last()))
    }
}

proof fn lemma_backward_walk(
    adj: Seq<Vec<usize>>,
    done: Set<int>,
    rank: Map<int, int>,
    b: int,
    len: nat,
)
    requires
        settled(adj, done, rank),
        0 <= b < adj.len(),
        !done.contains(b),
    ensures
        backward_walk(adj, done, b, len).len() == len + 1,
        forall|i: int|
            0 <= i <= len ==> !done.contains(#[trigger] backward_walk(adj, done, b, len)[i]) && 0
                <= backward_walk(adj, done, b, len)[i] < adj.len(),
        forall|i: int|
            0 <= i < len ==> edge(
                adj,
                backward_walk(adj, done, b, len)[i + 1],
                #[trigger] backward_walk(adj, done, b, len)[i],
            ),
    decreases len,
{
    if len > 0 {
        lemma_backward_walk(adj, done, rank, b, (len - 1) as nat);
        let walk = backward_walk(adj, done, b, (len - 1) as nat);
        let longer = backward_walk(adj, done, b, len);
        assert(walk.last() == walk[len - 1]);
        assert(!done.contains(walk.last()));
        let a = choose|a: int| !done.contains(a) && #[trigger] edge(adj, a, walk.last());
        assert(!done.contains(a) && edge(adj, a, walk.last()));
        assert(longer == walk.push(a));
        assert forall|i: int| 0 <= i < len implies edge(adj, longer[i + 1], #[trigger] longer[i]) by {
            if i < len - 1 {
                assert(edge(adj, walk[i + 1], walk[i]));
            }
        }
    }
}

/// Some two positions of a long enough walk through fewer nodes coincide.
proof fn lemma_pigeonhole(walk: Seq<int>, n: int)
    requires
        0 <= n < walk.len(),
        forall|i: int| 0 <= i < walk.len() ==> 0 <= #[trigger] walk[i] < n,
    ensures
        exists|i: int, j: int| 0 <= i < j < walk.len() && walk[i] == walk[j],
{
    if walk.no_duplicates() {
        walk.unique_seq_to_set();
        assert forall|x: int| #[trigger] walk.to_set().contains(x) implies 0 <= x < n by {
            let i = choose|i: int| 0 <= i < walk.len() && walk[i] == x;
            assert(walk[i] == x);
        }
        lemma_bounded_set(n, walk.to_set());
    } else {
        let (i, j) = choose|i: int, j: int|
            0 <= i < walk.len() && 0 <= j < walk.len() && i != j && walk[i] == walk[j];
        if i < j {
            assert(0 <= i < j < walk.len() && walk[i] == walk[j]);
        } else {
            assert(0 <= j < i < walk.len() && walk[j] == walk[i]);
        }
    }
}

/// A walk along edges that is listed from its end and passes a node twice
/// holds a cycle.
proof fn lemma_closed_walk(adj: Seq<Vec<usize>>, walk: Seq<int>, i: int, j: int)
    requires
        0 <= i < j < walk.len(),
        walk[i] == walk[j],
        forall|k: int| 0 <= k < walk.len() - 1 ==> edge(adj, walk[k + 1], #[trigger] walk[k]),
    ensures
        has_cycle(adj),
{
    let path = Seq::new((j - i + 1) as nat, |k: int| walk[j - k]);
    assert forall|k: int| 0 <= k < path.len() - 1 implies edge(
        adj,
        #[trigger] path[k],
        path[k + 1],
    ) by {
        let m = j - k - 1;
        assert(edge(adj, walk[m + 1], walk[m]));
    }
    assert(is_cycle(adj, path));
}

proof fn lemma_unsettled_node_has_cycle(
    adj: Seq<Vec<usize>>,
    done: Set<int>,
    rank: Map<int, int>,
    b: int,
)
    requires
        settled(adj, done, rank),
        0 <= b < adj.len(),
        !done.contains(b),
    ensures
        has_cycle(adj),
{
    let n = adj.len() as int;
    let walk = backward_walk(adj, done, b, n as nat);
    lemma_backward_walk(adj, done, rank, b, n as nat);
    lemma_pigeonhole(walk, n);
    let (i, j) = choose|i: int, j: int| 0 <= i < j < walk.len() && walk[i] == walk[j];
    lemma_closed_walk(adj, walk, i, j);
}

/// A settled set holds every node exactly when the graph has no cycle.
pub proof fn lemma_settled_all_iff_acyclic(
    adj: Seq<Vec<usize>>,
    done: Set<int>,
    rank: Map<int, int>,
)
    requires
        settled(adj, done, rank),
    ensures
        done.len() <= adj.len(),
        done.len() == adj.len() <==> !has_cycle(adj),
{
    let n = adj.len() as int;
    lemma_bounded_set(n, done);
    if done.len() == adj.len() {
        if has_cycle(adj) {
            let path = choose|path: Seq<int>| is_cycle(adj, path);
            lemma_rank_grows(adj, done, rank, path, path.len() - 1);
        }
    } else {
        if forall|b: int| 0 <= b < n ==> #[trigger] done.contains(b) {
            lemma_int_range(0, n);
            assert(done =~= set_int_range(0, n));
        }
        let b = choose|b: int| 0 <= b < n && !#[trigger] done.contains(b);
        lemma_unsettled_node_has_cycle(adj, done, rank, b);
    }
}

// ---------------------------------------------------------------
// Algorithm
// ---------------------------------------------------------------

/// Compute in-degree for each of `count` nodes.
pub fn compute_in_degrees(count: usize, adj: &[Vec<usize>]) -> (in_deg: Vec<usize>)
    requires
        forall|b: int| 0 <= b < count ==> #[trigger] in_degree(adj@, b) <= usize::MAX,
    ensures
        in_deg@.len() == count,
        forall|b: int| 0 <= b < count ==> #[trigger] in_deg@[b] == in_degree(adj@, b),
{
    let mut in_deg: Vec<usize> = vec![0; count];
    let mut a: usize = 0;
    while a < adj.len()
        invariant
            forall|b: int| 0 <= b < count ==> #[trigger] in_degree(adj@, b) <= usize::MAX,
            a <= adj@.len(),
            in_deg@.len() == count,
            forall|b: int|
                0 <= b < count ==> #[trigger] in_deg@[b] + pending(adj@, Set::empty(), a as int, b)
                    == in_degree(adj@, b),
        decreases adj.len() - a,
    {
        let heads = &adj[a];
        let mut k: usize = 0;
        while k < heads.len()
            invariant
                forall|b: int| 0 <= b < count ==> #[trigger] in_degree(adj@, b) <= usize::MAX,
                a < adj@.len(),
                heads@ == adj@[a as int]@,
                k <= heads@.len(),
                in_deg@.len() == count,
                forall|b: int|
                    0 <= b < count ==> #[trigger] in_deg@[b] + count_from(heads@, k as int, b)
                        + pending(adj@, Set::empty(), a + 1, b) == in_degree(adj@, b),
            decreases heads.len() - k,
        {
            let to = heads[k];
            if to < in_deg.len() {
                assert(in_degree(adj@, to as int) <= usize::MAX);
                assert(in_deg@[to as int] + count_from(heads@, k as int, to as int) + pending(
                    adj@,
                    Set::empty(),
                    a + 1,
                    to as int,
                ) == in_degree(adj@, to as int));
                in_deg[to] = in_deg[to] + 1;
            }
            k += 1;
        }
        a += 1;
    }
    in_deg
}

/// True when `order` lists the members of `done` by their rank, each once.
pub open spec fn lists(order: Seq<usize>, done: Set<int>, rank: Map<int, int>) -> bool {
    &&& order.len() == done.len()
    &&& forall|i: int|
        0 <= i < order.len() ==> done.contains((#[trigger] order[i]) as int) && rank[order[i] as int]
            == i
    &&& forall|b: int|
        #[trigger] done.contains(b) ==> 0 <= rank[b] < order.len() && order[rank[b]] == b
}

/// BFS from zero-degree nodes, returning the number of visited nodes: those
/// that no cycle leads to.
pub fn kahn_bfs(in_deg: &mut Vec<usize>, adj: &[Vec<usize>]) -> (visited: usize)
    requires
        old(in_deg)@.len() == adj@.len(),
        forall|b: int| 0 <= b < adj@.len() ==> #[trigger] old(in_deg)@[b] == in_degree(adj@, b),
    ensures
        exists|done: Set<int>, rank: Map<int, int>|
            #[trigger] settled(adj@, done, rank) && visited == done.len() && final(in_deg)@
                == Seq::new(adj@.len(), |b: int| pending(adj@, done, 0, b) as usize),
        visited <= adj@.len(),
        visited == adj@.len() <==> !has_cycle(adj@),
{
    kahn_order(in_deg, adj).len()
}

/// Lists the nodes that no cycle leads to, each behind its predecessors.
///
/// A node is listed once every edge into it came from a listed node.
pub fn kahn_order(in_deg: &mut Vec<usize>, adj: &[Vec<usize>]) -> (order: Vec<usize>)
    requires
        old(in_deg)@.len() == adj@.len(),
        forall|b: int| 0 <= b < adj@.len() ==> #[trigger] old(in_deg)@[b] == in_degree(adj@, b),
    ensures
        exists|done: Set<int>, rank: Map<int, int>|
            #[trigger] settled(adj@, done, rank) && lists(order@, done, rank) && final(in_deg)@
                == Seq::new(adj@.len(), |b: int| pending(adj@, done, 0, b) as usize),
        order@.len() <= adj@.len(),
        order@.len() == adj@.len() <==> !has_cycle(adj@),
{
    let n = adj.len();
    let ghost mut done: Set<int> = Set::empty();
    let ghost mut rank: Map<int, int> = Map::empty();
    let mut queue: VecDeque<usize> = VecDeque::new();
    let mut i: usize = 0;
    while i < n
        invariant
            n == adj@.len(),
            i <= n,
            in_deg@.len() == n,
            forall|j: int|
                0 <= j < queue@.len() ==> 0 <= #[trigger] queue@[j] < i && in_deg@[queue@[j] as int]
                    == 0,
            forall|j: int, k: int|
                0 <= j < k < queue@.len() ==> #[trigger] queue@[j] != #[trigger] queue@[k],
            forall|b: int|
                0 <= b < i && #[trigger] in_deg@[b] == 0 ==> queue@.contains(b as usize),
        decreases n - i,
    {
        if in_deg[i] == 0 {
            let ghost before = queue@;
            queue.push_back(i);
            assert(queue@ == before.push(i));
            assert forall|b: int| 0 <= b < i + 1 && #[trigger] in_deg@[b] == 0 implies queue@.contains(
                b as usize,
            ) by {
                if b == i {
                    assert(queue@[before.len() as int] == i);
                } else {
                    let j = choose|j: int| 0 <= j < before.len() && before[j] == b as usize;
                    assert(queue@[j] == b as usize);
                }
            }
        }
        i += 1;
    }
    let mut order: Vec<usize> = Vec::new();
    proof {
        lemma_bounded_set(n as int, done);
    }
    while queue.len() > 0
        invariant
            n == adj@.len(),
            in_deg@.len() == n,
            done.finite(),
            lists(order@, done, rank),
            forall|b: int| #[trigger] done.contains(b) ==> 0 <= b < n,
            forall|b: int| 0 <= b < n ==> #[trigger] in_deg@[b] == pending(adj@, done, 0, b),
            forall|j: int|
                0 <= j < queue@.len() ==> 0 <= #[trigger] queue@[j] < n && in_deg@[queue@[j] as int]
                    == 0 && !done.contains(queue@[j] as int),
            forall|j: int, k: int|
                0 <= j < k < queue@.len() ==> #[trigger] queue@[j] != #[trigger] queue@[k],
            forall|b: int|
                0 <= b < n && #[trigger] in_deg@[b] == 0 ==> queue@.contains(b as usize)
                    || done.contains(b),
            forall|b: int| #[trigger] done.contains(b) ==> in_deg@[b] == 0,
            forall|a: int, b: int|
                #[trigger] edge(adj@, a, b) && done.contains(b) ==> done.contains(a) && rank[a]
                    < rank[b],
        decreases n - order@.len(),
    {
        let ghost queue_before = queue@;
        let node = match queue.pop_front() {
            Some(node) => node,
            None => 0,
        };
        assert(node == queue_before[0]);
        assert(queue@ =~= queue_before.drop_first());
        let ghost done_before = done;
        proof {
            lemma_no_pending(adj@, done, node as int);
            done = done.insert(node as int);
            rank = rank.insert(node as int, order@.len() as int);
            lemma_bounded_set(n as int, done);
            assert forall|b: int| 0 <= b < n implies #[trigger] in_deg@[b] == pending(
                adj@,
                done,
                0,
                b,
            ) + count_from(adj@[node as int]@, 0, b) by {
                lemma_pending_remove(adj@, done_before, node as int, 0, b);
            }
            assert forall|a: int, b: int|
                #[trigger] edge(adj@, a, b) && done.contains(b) implies done.contains(a) && rank[a]
                < rank[b] by {
                if b == node {
                    assert(done_before.contains(a));
                } else {
                    assert(done_before.contains(a));
                }
                if a == node {
                    assert(false);
                }
            }
            assert forall|b: int|
                0 <= b < n && #[trigger] in_deg@[b] == 0 implies queue@.contains(b as usize)
                || done.contains(b) by {
                if b != node && !done_before.contains(b) {
                    let j = choose|j: int| 0 <= j < queue_before.len() && queue_before[j] == b as usize;
                    assert(queue@[j - 1] == b as usize);
                }
            }
        }
        let ghost order_before = order@;
        order.push(node);
        proof {
            assert forall|i: int| 0 <= i < order@.len() implies done.contains(
                (#[trigger] order@[i]) as int,
            ) && rank[order@[i] as int] == i by {
                if i < order_before.len() {
                    assert(order@[i] == order_before[i]);
                    assert(done_before.contains(order_before[i] as int));
                }
            }
            assert forall|b: int| #[trigger] done.contains(b) implies 0 <= rank[b] < order@.len()
                && order@[rank[b]] == b by {
                if b != node {
                    assert(done_before.contains(b));
                }
            }
        }
        let heads = &adj[node];
        let mut k: usize = 0;
        while k < heads.len()
            invariant
                n == adj@.len(),
                node < n,
                heads@ == adj@[node as int]@,
                k <= heads@.len(),
                in_deg@.len() == n,
                forall|b: int| #[trigger] done.contains(b) ==> 0 <= b < n,
                forall|b: int|
                    0 <= b < n ==> #[trigger] in_deg@[b] == pending(adj@, done, 0, b) + count_from(
                        heads@,
                        k as int,
                        b,
                    ),
                forall|j: int|
                    0 <= j < queue@.len() ==> 0 <= #[trigger] queue@[j] < n
                        && in_deg@[queue@[j] as int] == 0 && !done.contains(queue@[j] as int),
                forall|j: int, m: int|
                    0 <= j < m < queue@.len() ==> #[trigger] queue@[j] != #[trigger] queue@[m],
                forall|b: int|
                    0 <= b < n && #[trigger] in_deg@[b] == 0 ==> queue@.contains(b as usize)
                        || done.contains(b),
                forall|b: int| #[trigger] done.contains(b) ==> in_deg@[b] == 0,
            decreases heads.len() - k,
        {
            let to = heads[k];
            if to < in_deg.len() {
                let ghost deg_before = in_deg@;
                assert(in_deg@[to as int] == pending(adj@, done, 0, to as int) + count_from(
                    heads@,
                    k as int,
                    to as int,
                ));
                in_deg[to] = in_deg[to] - 1;
                assert(in_deg@ == deg_before.update(to as int, (deg_before[to as int] - 1) as usize));
                let ghost q = queue@;
                if in_deg[to] == 0 {
                    queue.push_back(to);
                    assert(queue@ == q.push(to));
                    assert(queue@[q.len() as int] == to);
                    assert forall|b: int|
                        0 <= b < n && #[trigger] in_deg@[b] == 0 implies queue@.contains(b as usize)
                        || done.contains(b) by {
                        if b != to && !done.contains(b) {
                            assert(deg_before[b] == 0);
                            let j = choose|j: int| 0 <= j < q.len() && q[j] == b as usize;
                            assert(queue@[j] == b as usize);
                        }
                    }
                } else {
                    assert forall|b: int|
                        0 <= b < n && #[trigger] in_deg@[b] == 0 implies queue@.contains(b as usize)
                        || done.contains(b) by {
                        assert(deg_before[b] == 0);
                    }
                }
            }
            k += 1;
        }
    }
    proof {
        assert forall|b: int| 0 <= b < adj@.len() && !#[trigger] done.contains(b) implies exists|a: int|
            !done.contains(a) && #[trigger] edge(adj@, a, b) by {
            assert(in_deg@[b] != 0) by {
                if in_deg@[b] == 0 {
                    assert(queue@.contains(b as usize));
                }
            }
            lemma_pending_source(adj@, done, 0, b);
        }
        assert(settled(adj@, done, rank));
        assert(in_deg@ =~= Seq::new(adj@.len(), |b: int| pending(adj@, done, 0, b) as usize));
        lemma_settled_all_iff_acyclic(adj@, done, rank);
    }
    order
}

// ---------------------------------------------------------------
// Laws
// ---------------------------------------------------------------

/// How often a node occurs in a list of heads.
pub open spec fn occurrences(heads: Seq<usize>, b: int) -> nat
    decreases heads.len(),
{
    if heads.len() == 0 {
        0
    } else {
        occurrences(heads.drop_last(), b) + if heads.last() == b {
            1nat
        } else {
            0nat
        }
    }
}

proof fn lemma_count_is_occurrences(heads: Seq<usize>, k: int, b: int)
    requires
        0 <= k <= heads.len(),
    ensures
        count_from(heads, k, b) == occurrences(heads, b) - occurrences(heads.take(k), b),
    decreases heads.len() - k,
{
    if k < heads.len() {
        lemma_count_is_occurrences(heads, k + 1, b);
        assert(heads.take(k + 1).drop_last() =~= heads.take(k));
        assert(heads.take(k + 1).last() == heads[k]);
    } else {
        assert(heads.take(k) =~= heads);
    }
}

/// The number of edges that lead to a node from the first `n` nodes.
pub open spec fn edges_to(adj: Seq<Vec<usize>>, b: int, n: int) -> nat
    decreases n,
{
    if n <= 0 {
        0
    } else {
        edges_to(adj, b, n - 1) + occurrences(adj[n - 1]@, b)
    }
}

proof fn lemma_pending_is_edges(adj: Seq<Vec<usize>>, a: int, b: int)
    requires
        0 <= a <= adj.len(),
    ensures
        pending(adj, Set::empty(), a, b) == edges_to(adj, b, adj.len() as int) - edges_to(adj, b, a),
    decreases adj.len() - a,
{
    if a < adj.len() {
        lemma_pending_is_edges(adj, a + 1, b);
        lemma_count_is_occurrences(adj[a]@, 0, b);
        assert(adj[a]@.take(0) =~= Seq::empty());
        assert(occurrences(adj[a]@.take(0), b) == 0);
    }
}

/// The in-degree of a node is the number of edges that lead to it, each counted as
/// often as it is listed.
pub proof fn law_in_degrees_count_every_edge(adj: Seq<Vec<usize>>, b: int)
    ensures
        in_degree(adj, b) == edges_to(adj, b, adj.len() as int),
{
    lemma_pending_is_edges(adj, 0, b);
}

} // verus!
