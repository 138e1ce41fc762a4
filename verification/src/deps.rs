//! The dependencies to appraise: the transitive closure of a package's
//! dependencies in the resolved dependency graph.
//!
//! Packages are numbered `0..n`; the graph holds, for each package, whether
//! its metadata is known and, when it was resolved, its dependency edges.

use crate::options::{should_process, DependencyType};
use vstd::prelude::*;

verus! {

/// The kind of a dependency edge.
#[derive(Debug, Clone, Copy, PartialEq, Eq, Structural)]
pub enum DependencyKind {
    Normal,
    Development,
    Build,
    Unknown,
}

/// A dependency edge: the package depended on and the kinds of the
/// dependency.
#[derive(Debug, Clone)]
pub struct DepEdge {
    pub target: usize,
    pub kinds: Vec<DependencyKind>,
}

/// The resolved dependency graph.
#[derive(Debug, Clone)]
pub struct DepGraph {
    /// Whether the metadata of each package is known.
    pub known: Vec<bool>,
    /// The dependency edges of each resolved package.
    pub edges: Vec<Option<Vec<DepEdge>>>,
}

impl DepGraph {
    /// The dependency edges of `p` (none when it was not resolved).
    pub open spec fn out_edges(&self, p: int) -> Seq<DepEdge> {
        match self.edges@[p] {
            Some(es) => es@,
            None => Seq::empty(),
        }
    }

    /// Both tables cover the same packages, and every edge leads to one.
    pub open spec fn wf(&self) -> bool {
        &&& self.known@.len() == self.edges@.len()
        &&& forall|p: int, e: int| 0 <= p < self.edges@.len() && 0 <= e < self.out_edges(p).len()
            ==> (#[trigger] self.out_edges(p)[e]).target < self.edges@.len()
    }

    /// The number of packages.
    pub open spec fn size(&self) -> int {
        self.known@.len() as int
    }

    /// Whether `p` has an edge of kind `k` to `q`.
    pub open spec fn edge(&self, p: int, q: int, k: DependencyKind) -> bool {
        &&& 0 <= p < self.edges@.len()
        &&& exists|e: int| 0 <= e < self.out_edges(p).len() && (#[trigger] self.out_edges(p)[e]).target == q
            && self.out_edges(p)[e].kinds@.contains(k)
    }

    /// Whether `path` is a walk that starts with a dependency of kind `k` of
    /// `root` and goes on along normal dependencies of known packages.
    #[verifier::opaque]
    pub open spec fn walk(&self, root: int, k: DependencyKind, path: Seq<int>) -> bool {
        &&& path.len() > 0
        &&& self.edge(root, path[0], k)
        &&& forall|j: int| 0 <= j < path.len() - 1 ==> self.known@[#[trigger] path[j]]
            && self.edge(path[j], path[j + 1], DependencyKind::Normal)
    }

    /// Whether `p` is reached from `root` by such a walk.
    #[verifier::opaque]
    pub open spec fn reaches(&self, root: int, k: DependencyKind, p: int) -> bool {
        exists|path: Seq<int>| #[trigger] self.walk(root, k, path) && path.last() == p
    }
}

/// Whether `q` is in the queue.
pub open spec fn queued(queue: Seq<usize>, q: int) -> bool {
    exists|j: int| 0 <= j < queue.len() && queue[j] as int == q
}

/// The kind of the first edge for a dependency type.
pub open spec fn initial_kind(t: DependencyType) -> DependencyKind {
    match t {
        DependencyType::Standard => DependencyKind::Normal,
        DependencyType::Dev => DependencyKind::Development,
        DependencyType::Build => DependencyKind::Build,
    }
}

/// Whether `kinds` holds `k`.
fn has_kind(kinds: &Vec<DependencyKind>, k: DependencyKind) -> (r: bool)
    ensures
        r == kinds@.contains(k),
{
    let mut i: usize = 0;
    while i < kinds.len()
        invariant
            i <= kinds@.len(),
            forall|j: int| 0 <= j < i ==> kinds@[j] != k,
        decreases kinds@.len() - i,
    {
        if kinds[i] == k {
            assert(kinds@[i as int] == k);
            return true;
        }
        i = i + 1;
    }
    false
}

/// Appends the targets of `p`'s edges of kind `k` to the queue.
fn push_targets(graph: &DepGraph, p: usize, k: DependencyKind, queue: &mut Vec<usize>)
    requires
        graph.wf(),
        p < graph.size(),
    ensures
        old(queue)@.len() <= final(queue)@.len(),
        forall|j: int| 0 <= j < old(queue)@.len() ==> final(queue)@[j] == old(queue)@[j],
        forall|j: int| old(queue)@.len() <= j < final(queue)@.len()
            ==> graph.edge(p as int, #[trigger] final(queue)@[j] as int, k),
        forall|q: int| #[trigger] graph.edge(p as int, q, k) ==> queued(final(queue)@, q) && 0 <= q < graph.size(),
        forall|j: int| 0 <= j < final(queue)@.len() ==> (#[trigger] final(queue)@[j] < graph.size()
            || j < old(queue)@.len()),
{
    match &graph.edges[p] {
        None => {},
        Some(es) => {
            let ghost start = queue@;
            let mut e: usize = 0;
            while e < es.len()
                invariant
                    graph.wf(),
                    p < graph.size(),
                    graph.edges@[p as int] == Some(*es),
                    e <= es@.len(),
                    start.len() <= queue@.len(),
                    forall|j: int| 0 <= j < start.len() ==> queue@[j] == start[j],
                    forall|j: int| start.len() <= j < queue@.len() ==> graph.edge(p as int, #[trigger] queue@[j] as int, k),
                    forall|j: int| start.len() <= j < queue@.len() ==> #[trigger] queue@[j] < graph.size(),
                    forall|f: int| 0 <= f < e && (#[trigger] es@[f]).kinds@.contains(k) ==> queued(queue@, es@[f].target as int),
                decreases es@.len() - e,
            {
                assert(graph.out_edges(p as int) == es@);
                assert(graph.out_edges(p as int)[e as int].target < graph.size());
                let ghost prev = queue@;
                if has_kind(&es[e].kinds, k) {
                    let t = es[e].target;
                    queue.push(t);
                    assert(queue@[queue@.len() - 1] == t);
                    assert(graph.out_edges(p as int)[e as int].target == t);
                    assert(graph.edge(p as int, t as int, k));
                }
                proof {
                    assert forall|f: int| 0 <= f < e + 1 && (#[trigger] es@[f]).kinds@.contains(k)
                        implies queued(queue@, es@[f].target as int) by {
                        if f < e {
                            let j = choose|j: int| 0 <= j < prev.len() && prev[j] == es@[f].target;
                            assert(queue@[j] == es@[f].target);
                        } else {
                            assert(queue@[queue@.len() - 1] == es@[f].target);
                        }
                    }
                }
                e = e + 1;
            }
            proof {
                assert(graph.out_edges(p as int) == es@);
                assert forall|q: int| #[trigger] graph.edge(p as int, q, k) implies queued(queue@, q) && 0 <= q < graph.size() by {
                    let f = choose|f: int| 0 <= f < graph.out_edges(p as int).len() && (#[trigger] graph.out_edges(p as int)[f]).target == q
                        && graph.out_edges(p as int)[f].kinds@.contains(k);
                    assert(es@[f].kinds@.contains(k));
                }
            }
        },
    }
}

/// The packages reached from `root` by dependencies of type `t`: those
/// depended on by `root` with the type's kind, then, transitively, the normal
/// dependencies of known packages; only known packages are listed, each once.
/// Dependencies of packages whose metadata is unknown are not followed.
#[verifier::rlimit(50)]
pub fn build_transitive_deps(graph: &DepGraph, root: usize, t: DependencyType) -> (r: Vec<usize>)
    requires
        graph.wf(),
        root < graph.size(),
    ensures
        forall|p: int| 0 <= p < graph.size() ==> (r@.contains(p as usize)
            <==> graph.known@[p] && graph.reaches(root as int, initial_kind(t), p)),
        forall|j: int| 0 <= j < r@.len() ==> #[trigger] r@[j] < graph.size(),
        r@.no_duplicates(),
{
    let n = graph.known.len();
    let k = match t {
        DependencyType::Standard => DependencyKind::Normal,
        DependencyType::Dev => DependencyKind::Development,
        DependencyType::Build => DependencyKind::Build,
    };
    let mut queue: Vec<usize> = Vec::new();
    push_targets(graph, root, k, &mut queue);
    let mut visited: Vec<bool> = Vec::new();
    let mut i: usize = 0;
    while i < n
        invariant
            i <= n,
            visited@.len() == i,
            forall|j: int| 0 <= j < i ==> !visited@[j],
        decreases n - i,
    {
        visited.push(false);
        i = i + 1;
    }
    let mut seen_count: usize = 0;
    proof {
        assert forall|j: int| 0 <= j < queue@.len() implies #[trigger] queue@[j] < graph.size()
            && graph.reaches(root as int, k, queue@[j] as int) by {
            lemma_reaches_first(graph, root as int, k, queue@[j] as int);
        }
        lemma_count_true_none(visited@);
    }
    while queue.len() > 0
        invariant
            graph.wf(),
            root < graph.size(),
            n == graph.size(),
            k == initial_kind(t),
            visited@.len() == n,
            seen_count == count_true(visited@),
            forall|j: int| 0 <= j < queue@.len() ==> #[trigger] queue@[j] < n
                && graph.reaches(root as int, k, queue@[j] as int),
            forall|p: int| 0 <= p < n && visited@[p] ==> graph.reaches(root as int, k, p),
            forall|q: int| #[trigger] graph.edge(root as int, q, k) ==> (0 <= q < n && visited@[q]) || queued(queue@, q),
            forall|p: int, q: int| 0 <= p < n && visited@[p] && graph.known@[p] && #[trigger] graph.edge(p, q, DependencyKind::Normal)
                ==> (0 <= q < n && visited@[q]) || queued(queue@, q),
        decreases n - seen_count, queue@.len(),
    {
        proof { lemma_count_true_bound(visited@); }
        let ghost before_queue = queue@;
        let p = queue.pop().unwrap();
        assert(before_queue == queue@.push(p));
        let ghost mid_queue = queue@;
        let ghost old_visited = visited@;
        if !visited[p] {
            visited.set(p, true);
            proof { lemma_count_true_update(old_visited, p as int); }
            seen_count = seen_count + 1;
            if graph.known[p] {
                push_targets(graph, p, DependencyKind::Normal, &mut queue);
            }
        }
        proof {
            assert(before_queue[before_queue.len() - 1] == p);
            lemma_visit_step(graph, root as int, k, p as int, before_queue, mid_queue, queue@, old_visited, visited@);
        }
    }
    let mut result: Vec<usize> = Vec::new();
    let mut i: usize = 0;
    while i < n
        invariant
            i <= n,
            n == graph.size(),
            visited@.len() == n,
            forall|p: int| #![trigger result@.contains(p as usize)] #![trigger visited@[p]]
                0 <= p < n ==> (result@.contains(p as usize) <==> p < i && visited@[p] && graph.known@[p]),
            forall|j: int| 0 <= j < result@.len() ==> #[trigger] result@[j] < i,
            result@.no_duplicates(),
        decreases n - i,
    {
        let ghost old_result = result@;
        if visited[i] && graph.known[i] {
            result.push(i);
            proof {
                assert(result@[result@.len() - 1] == i);
                assert forall|j: int| 0 <= j < result@.len() implies #[trigger] result@[j] < i + 1 by {
                    if j < old_result.len() {
                        assert(result@[j] == old_result[j]);
                    }
                }
                assert forall|a: int, b: int| 0 <= a < result@.len() && 0 <= b < result@.len() && a != b
                    implies result@[a] != result@[b] by {
                    if a < old_result.len() && b < old_result.len() {
                        assert(result@[a] == old_result[a] && result@[b] == old_result[b]);
                    } else if a < old_result.len() {
                        assert(result@[a] == old_result[a]);
                        assert(old_result[a] < i);
                    } else {
                        assert(result@[b] == old_result[b]);
                        assert(old_result[b] < i);
                    }
                }
                assert forall|p: int| #![trigger result@.contains(p as usize)] #![trigger visited@[p]]
                    0 <= p < n implies (result@.contains(p as usize)
                    <==> p < i + 1 && visited@[p] && graph.known@[p]) by {
                    assert(old_result.contains(p as usize) <==> p < i && visited@[p] && graph.known@[p]);
                    if result@.contains(p as usize) {
                        let j = choose|j: int| 0 <= j < result@.len() && result@[j] == p as usize;
                        if j < old_result.len() {
                            assert(old_result[j] == p as usize);
                            assert(old_result.contains(p as usize));
                        } else {
                            assert(p == i);
                        }
                    }
                    if p < i && visited@[p] && graph.known@[p] {
                        assert(old_result.contains(p as usize));
                        let j = choose|j: int| 0 <= j < old_result.len() && old_result[j] == p as usize;
                        assert(result@[j] == p as usize);
                    }
                    if p == i {
                        assert(result@[result@.len() - 1] == p as usize);
                        assert(result@.contains(p as usize));
                        assert(visited@[p] && graph.known@[p]);
                    }
                }
            }
        } else {
            proof {
                assert forall|j: int| 0 <= j < result@.len() implies #[trigger] result@[j] < i + 1 by {}
                assert forall|p: int| 0 <= p < n implies (result@.contains(p as usize)
                    <==> p < i + 1 && visited@[p] && graph.known@[p]) by {
                    if result@.contains(p as usize) {
                        let j = choose|j: int| 0 <= j < result@.len() && result@[j] == p as usize;
                        assert(result@[j] < i);
                    }
                }
            }
        }
        i = i + 1;
    }
    proof {
        assert forall|p: int| 0 <= p < n && graph.known@[p] && graph.reaches(root as int, k, p) implies visited@[p] by {
            lemma_reached_visited(graph, root as int, k, p, visited@);
        }
    }
    result
}

/// The number of `true` entries.
pub open spec fn count_true(s: Seq<bool>) -> nat
    decreases s.len(),
{
    if s.len() == 0 {
        0
    } else {
        count_true(s.drop_last()) + if s.last() { 1nat } else { 0nat }
    }
}

proof fn lemma_count_true_none(s: Seq<bool>)
    requires
        forall|j: int| 0 <= j < s.len() ==> !s[j],
    ensures
        count_true(s) == 0,
    decreases s.len(),
{
    if s.len() > 0 {
        lemma_count_true_none(s.drop_last());
    }
}

proof fn lemma_count_true_bound(s: Seq<bool>)
    ensures
        count_true(s) <= s.len(),
    decreases s.len(),
{
    if s.len() > 0 {
        lemma_count_true_bound(s.drop_last());
    }
}

proof fn lemma_count_true_update(s: Seq<bool>, i: int)
    requires
        0 <= i < s.len(),
        !s[i],
    ensures
        count_true(s.update(i, true)) == count_true(s) + 1,
        count_true(s) < s.len(),
    decreases s.len(),
{
    if i < s.len() - 1 {
        assert(s.update(i, true).drop_last() =~= s.drop_last().update(i, true));
        lemma_count_true_update(s.drop_last(), i);
    } else {
        assert(s.update(i, true).drop_last() =~= s.drop_last());
        lemma_count_true_bound(s.drop_last());
    }
}

#[verifier::rlimit(50)]
/// One step of the search keeps its invariants: `p` was taken from the
/// queue; when it was new it is now visited and, when known, its normal
/// dependencies were queued.
proof fn lemma_visit_step(
    graph: &DepGraph,
    root: int,
    k: DependencyKind,
    p: int,
    before: Seq<usize>,
    mid: Seq<usize>,
    after: Seq<usize>,
    old_visited: Seq<bool>,
    visited: Seq<bool>,
)
    requires
        graph.wf(),
        graph.size() <= usize::MAX,
        0 <= root < graph.size(),
        0 <= p < graph.size(),
        old_visited.len() == graph.size(),
        before == mid.push(p as usize),
        forall|j: int| 0 <= j < before.len() ==> #[trigger] before[j] < graph.size()
            && graph.reaches(root, k, before[j] as int),
        forall|x: int| 0 <= x < graph.size() && old_visited[x] ==> graph.reaches(root, k, x),
        forall|q: int| #[trigger] graph.edge(root, q, k) ==> (0 <= q < graph.size() && old_visited[q]) || queued(before, q),
        forall|a: int, q: int| 0 <= a < graph.size() && old_visited[a] && graph.known@[a] && #[trigger] graph.edge(a, q, DependencyKind::Normal)
            ==> (0 <= q < graph.size() && old_visited[q]) || queued(before, q),
        old_visited[p] ==> visited == old_visited && after == mid,
        !old_visited[p] ==> visited == old_visited.update(p, true),
        !old_visited[p] && !graph.known@[p] ==> after == mid,
        !old_visited[p] && graph.known@[p] ==> {
            &&& mid.len() <= after.len()
            &&& forall|j: int| 0 <= j < mid.len() ==> after[j] == mid[j]
            &&& forall|j: int| mid.len() <= j < after.len() ==> graph.edge(p, #[trigger] after[j] as int, DependencyKind::Normal)
            &&& forall|q: int| #[trigger] graph.edge(p, q, DependencyKind::Normal) ==> queued(after, q) && 0 <= q < graph.size()
        },
    ensures
        visited.len() == graph.size(),
        forall|j: int| 0 <= j < after.len() ==> #[trigger] after[j] < graph.size()
            && graph.reaches(root, k, after[j] as int),
        forall|x: int| 0 <= x < graph.size() && visited[x] ==> graph.reaches(root, k, x),
        forall|q: int| #[trigger] graph.edge(root, q, k) ==> (0 <= q < graph.size() && visited[q]) || queued(after, q),
        forall|a: int, q: int| 0 <= a < graph.size() && visited[a] && graph.known@[a] && #[trigger] graph.edge(a, q, DependencyKind::Normal)
            ==> (0 <= q < graph.size() && visited[q]) || queued(after, q),
{
    let n = graph.size();
    assert(before[before.len() - 1] == p as usize);
    assert(graph.reaches(root, k, p));
    // entries of the old queue other than `p` stay queued
    assert forall|q: int| queued(before, q) && !(0 <= q < n && visited[q]) implies queued(after, q) by {
        let j = choose|j: int| 0 <= j < before.len() && before[j] as int == q;
        if j == before.len() - 1 {
            assert(q == p);
            assert(visited[q]);
        } else {
            assert(mid[j] as int == q);
            assert(after[j] as int == q);
        }
    }
    assert forall|j: int| 0 <= j < after.len() implies #[trigger] after[j] < n && graph.reaches(root, k, after[j] as int) by {
        if j < mid.len() {
            assert(after[j] == mid[j]);
            assert(before[j] == mid[j]);
        } else {
            let q = after[j] as int;
            assert(graph.edge(p, q, DependencyKind::Normal));
            let e = choose|e: int| 0 <= e < graph.out_edges(p).len() && (#[trigger] graph.out_edges(p)[e]).target == q
                && graph.out_edges(p)[e].kinds@.contains(DependencyKind::Normal);
            assert(graph.out_edges(p)[e].target < n);
            lemma_reaches_step(graph, root, k, p, q);
        }
    }
}

/// A set of packages that holds the first hop and is closed under normal
/// dependencies of known packages holds every package a walk reaches.
proof fn lemma_walk_visited(graph: &DepGraph, root: int, k: DependencyKind, path: Seq<int>, visited: Seq<bool>)
    requires
        graph.wf(),
        visited.len() == graph.size(),
        graph.walk(root, k, path),
        forall|q: int| #[trigger] graph.edge(root, q, k) ==> 0 <= q < graph.size() && visited[q],
        forall|p: int, q: int| 0 <= p < graph.size() && visited[p] && graph.known@[p] && #[trigger] graph.edge(p, q, DependencyKind::Normal)
            ==> 0 <= q < graph.size() && visited[q],
    ensures
        0 <= path.last() < graph.size(),
        visited[path.last()],
    decreases path.len(),
{
    reveal(DepGraph::walk);
    if path.len() > 1 {
        let prefix = path.drop_last();
        assert(graph.walk(root, k, prefix)) by {
            assert forall|j: int| 0 <= j < prefix.len() - 1 implies graph.known@[#[trigger] prefix[j]]
                && graph.edge(prefix[j], prefix[j + 1], DependencyKind::Normal) by {
                assert(prefix[j] == path[j]);
                assert(prefix[j + 1] == path[j + 1]);
            }
        }
        lemma_walk_visited(graph, root, k, prefix, visited);
        let j = path.len() - 2;
        assert(graph.known@[path[j]] && graph.edge(path[j], path[j + 1], DependencyKind::Normal));
    }
}

/// A first-hop dependency is reached.
proof fn lemma_reaches_first(graph: &DepGraph, root: int, k: DependencyKind, q: int)
    requires
        graph.edge(root, q, k),
    ensures
        graph.reaches(root, k, q),
{
    reveal(DepGraph::walk);
    reveal(DepGraph::reaches);
    let path = seq![q];
    assert(graph.walk(root, k, path));
}

/// A normal dependency of a reached known package is reached.
proof fn lemma_reaches_step(graph: &DepGraph, root: int, k: DependencyKind, p: int, q: int)
    requires
        graph.reaches(root, k, p),
        graph.known@[p],
        graph.edge(p, q, DependencyKind::Normal),
    ensures
        graph.reaches(root, k, q),
{
    reveal(DepGraph::walk);
    reveal(DepGraph::reaches);
    let path = choose|path: Seq<int>| #[trigger] graph.walk(root, k, path) && path.last() == p;
    let longer = path.push(q);
    assert forall|m: int| 0 <= m < longer.len() - 1 implies graph.known@[#[trigger] longer[m]]
        && graph.edge(longer[m], longer[m + 1], DependencyKind::Normal) by {
        if m < path.len() - 1 {
            assert(longer[m] == path[m]);
            assert(longer[m + 1] == path[m + 1]);
        } else {
            assert(longer[m] == p);
            assert(longer[m + 1] == q);
        }
    }
    assert(graph.walk(root, k, longer));
    assert(longer.last() == q);
}

/// A set of packages that holds the first hop and is closed under normal
/// dependencies of known packages holds every reached package.
proof fn lemma_reached_visited(graph: &DepGraph, root: int, k: DependencyKind, p: int, visited: Seq<bool>)
    requires
        graph.wf(),
        visited.len() == graph.size(),
        graph.reaches(root, k, p),
        forall|q: int| #[trigger] graph.edge(root, q, k) ==> 0 <= q < graph.size() && visited[q],
        forall|a: int, q: int| 0 <= a < graph.size() && visited[a] && graph.known@[a] && #[trigger] graph.edge(a, q, DependencyKind::Normal)
            ==> 0 <= q < graph.size() && visited[q],
    ensures
        visited[p],
{
    reveal(DepGraph::reaches);
    let path = choose|path: Seq<int>| #[trigger] graph.walk(root, k, path) && path.last() == p;
    lemma_walk_visited(graph, root, k, path, visited);
}

/// Whether dependencies of type `d` are appraised: when no types are
/// given, when the list is empty, or when it names `d`.
pub open spec fn selects(types: Option<&[DependencyType]>, d: DependencyType) -> bool {
    match types {
        None => true,
        Some(ts) => ts@.len() == 0 || ts@.contains(d),
    }
}

/// Whether `p` is among the dependencies to appraise for the first `k`
/// targets.
pub open spec fn collected(graph: &DepGraph, targets: Seq<usize>, types: Option<&[DependencyType]>, k: int, p: int) -> bool {
    exists|i: int, d: DependencyType| 0 <= i < k && selects(types, d) && graph.known@[p]
        && #[trigger] graph.reaches(targets[i] as int, initial_kind(d), p)
}

/// Appends `v` to `r`: what either held, the result holds.
fn append_all(r: &mut Vec<usize>, v: Vec<usize>)
    ensures
        final(r)@ == old(r)@ + v@,
{
    let mut i: usize = 0;
    let ghost start = r@;
    while i < v.len()
        invariant
            i <= v@.len(),
            r@ == start + v@.take(i as int),
        decreases v@.len() - i,
    {
        r.push(v[i]);
        assert(v@.take(i + 1) =~= v@.take(i as int).push(v@[i as int]));
        i = i + 1;
    }
    assert(v@.take(v@.len() as int) =~= v@);
}

/// `b` lists, each once, the known packages reached from `t` by
/// dependencies of type `d` when that type is selected, and nothing otherwise.
pub open spec fn block_of(graph: &DepGraph, t: int, d: DependencyType, types: Option<&[DependencyType]>, b: Seq<usize>) -> bool {
    &&& b.no_duplicates()
    &&& forall|j: int| 0 <= j < b.len() ==> #[trigger] b[j] < graph.size()
    &&& forall|p: int| 0 <= p < graph.size() ==> (#[trigger] b.contains(p as usize)
        <==> (selects(types, d) && graph.known@[p] && graph.reaches(t, initial_kind(d), p)))
}

/// The lists one after the other.
pub open spec fn joined(bs: Seq<Seq<usize>>) -> Seq<usize>
    decreases bs.len(),
{
    if bs.len() == 0 { Seq::empty() } else { joined(bs.drop_last()) + bs.last() }
}

/// The dependency types in the order they are collected for a target.
pub open spec fn type_at(m: int) -> DependencyType {
    if m == 0 { DependencyType::Standard } else if m == 1 { DependencyType::Dev } else { DependencyType::Build }
}

/// Appends the dependencies of type `d` of `t` to `r` when that type is
/// selected; returns the block appended.
fn append_dependencies(graph: &DepGraph, t: usize, d: DependencyType, types: Option<&[DependencyType]>, r: &mut Vec<usize>) -> (b: Ghost<Seq<usize>>)
    requires
        graph.wf(),
        t < graph.size(),
        graph.size() <= usize::MAX,
        forall|j: int| 0 <= j < old(r)@.len() ==> #[trigger] old(r)@[j] < graph.size(),
    ensures
        forall|p: int| 0 <= p < graph.size() ==> (#[trigger] final(r)@.contains(p as usize) <==> (old(r)@.contains(p as usize)
            || (selects(types, d) && graph.known@[p] && graph.reaches(t as int, initial_kind(d), p)))),
        forall|j: int| 0 <= j < final(r)@.len() ==> #[trigger] final(r)@[j] < graph.size(),
        final(r)@ == old(r)@ + b@,
        block_of(graph, t as int, d, types, b@),
{
    if should_process(types, d) {
        let ghost before = r@;
        let v = build_transitive_deps(graph, t, d);
        let ghost vv = v@;
        append_all(r, v);
        proof {
            assert forall|p: int| 0 <= p < graph.size() implies (#[trigger] r@.contains(p as usize)
                <==> (before.contains(p as usize) || v@.contains(p as usize))) by {
                if r@.contains(p as usize) {
                    let j = choose|j: int| 0 <= j < r@.len() && r@[j] == p as usize;
                    if j < before.len() {
                        assert(before[j] == p as usize);
                    } else {
                        assert(v@[j - before.len()] == p as usize);
                    }
                }
                if before.contains(p as usize) {
                    let j = choose|j: int| 0 <= j < before.len() && before[j] == p as usize;
                    assert(r@[j] == p as usize);
                }
                if v@.contains(p as usize) {
                    let j = choose|j: int| 0 <= j < v@.len() && v@[j] == p as usize;
                    assert(r@[before.len() + j] == p as usize);
                }
            }
            assert forall|j: int| 0 <= j < r@.len() implies #[trigger] r@[j] < graph.size() by {
                if j < before.len() {
                    assert(r@[j] == before[j]);
                } else {
                    assert(r@[j] == v@[j - before.len()]);
                }
            }
        }
        Ghost(vv)
    } else {
        assert(r@ =~= r@ + Seq::<usize>::empty());
        Ghost(Seq::empty())
    }
}

/// The dependencies to appraise for the target packages: for each target in
/// turn, those of each selected type (standard, then dev, then build), each
/// block listing every package it reaches once; a package reached several
/// ways is listed as often as it is reached.
pub fn collect_dependencies(graph: &DepGraph, targets: &[usize], types: Option<&[DependencyType]>) -> (r: Vec<usize>)
    requires
        graph.wf(),
        forall|i: int| 0 <= i < targets@.len() ==> #[trigger] targets@[i] < graph.size(),
    ensures
        forall|p: int| 0 <= p < graph.size() ==> (#[trigger] r@.contains(p as usize)
            <==> collected(graph, targets@, types, targets@.len() as int, p)),
        forall|j: int| 0 <= j < r@.len() ==> #[trigger] r@[j] < graph.size(),
        exists|bs: Seq<Seq<usize>>| bs.len() == 3 * targets@.len() && r@ == joined(bs)
            && forall|i: int, m: int| 0 <= i < targets@.len() && 0 <= m < 3
                ==> #[trigger] block_of(graph, targets@[i] as int, type_at(m), types, bs[3 * i + m]),
{
    let n = graph.known.len();
    let mut r: Vec<usize> = Vec::new();
    let mut k: usize = 0;
    let ghost mut bs: Seq<Seq<usize>> = Seq::empty();
    while k < targets.len()
        invariant
            bs.len() == 3 * k,
            r@ == joined(bs),
            forall|i: int, m: int| 0 <= i < k && 0 <= m < 3
                ==> #[trigger] block_of(graph, targets@[i] as int, type_at(m), types, bs[3 * i + m]),
            graph.wf(),
            n == graph.size(),
            k <= targets@.len(),
            forall|i: int| 0 <= i < targets@.len() ==> #[trigger] targets@[i] < graph.size(),
            forall|p: int| 0 <= p < graph.size() ==> (#[trigger] r@.contains(p as usize)
                <==> collected(graph, targets@, types, k as int, p)),
            forall|j: int| 0 <= j < r@.len() ==> #[trigger] r@[j] < graph.size(),
        decreases targets@.len() - k,
    {
        let t = targets[k];
        let ghost r0 = r@;
        let b0 = append_dependencies(graph, t, DependencyType::Standard, types, &mut r);
        let ghost r1 = r@;
        let b1 = append_dependencies(graph, t, DependencyType::Dev, types, &mut r);
        let ghost r2 = r@;
        let b2 = append_dependencies(graph, t, DependencyType::Build, types, &mut r);
        proof {
            let old_bs = bs;
            bs = bs.push(b0@).push(b1@).push(b2@);
            let s1 = old_bs.push(b0@);
            let s2 = s1.push(b1@);
            assert(s1.drop_last() =~= old_bs);
            assert(s2.drop_last() =~= s1);
            assert(bs.drop_last() =~= s2);
            assert(joined(s1) == joined(old_bs) + b0@);
            assert(joined(s2) == joined(s1) + b1@);
            assert(joined(bs) == joined(s2) + b2@);
            assert(r@ =~= joined(bs));
            assert forall|i: int, m: int| 0 <= i < k + 1 && 0 <= m < 3
                implies #[trigger] block_of(graph, targets@[i] as int, type_at(m), types, bs[3 * i + m]) by {
                if i < k {
                    assert(bs[3 * i + m] == old_bs[3 * i + m]);
                } else {
                    assert(targets@[i] == t);
                    if m == 0 { assert(bs[3 * i + m] == b0@); }
                    else if m == 1 { assert(bs[3 * i + m] == b1@); }
                    else { assert(bs[3 * i + m] == b2@); }
                }
            }
        }
        proof {
            assert forall|p: int| 0 <= p < graph.size() implies (#[trigger] r@.contains(p as usize)
                <==> collected(graph, targets@, types, k + 1, p)) by {
                assert(r1.contains(p as usize) <==> (r0.contains(p as usize)
                    || (selects(types, DependencyType::Standard) && graph.known@[p] && graph.reaches(t as int, initial_kind(DependencyType::Standard), p))));
                assert(r2.contains(p as usize) <==> (r1.contains(p as usize)
                    || (selects(types, DependencyType::Dev) && graph.known@[p] && graph.reaches(t as int, initial_kind(DependencyType::Dev), p))));
                assert(r0.contains(p as usize) <==> collected(graph, targets@, types, k as int, p));
                if collected(graph, targets@, types, k + 1, p) {
                    let (i, d) = choose|i: int, d: DependencyType| 0 <= i < k + 1 && selects(types, d) && graph.known@[p]
                        && #[trigger] graph.reaches(targets@[i] as int, initial_kind(d), p);
                    if i < k {
                        assert(collected(graph, targets@, types, k as int, p));
                    } else {
                        assert(targets@[i] == t);
                    }
                }
                if collected(graph, targets@, types, k as int, p) {
                    let (i, d) = choose|i: int, d: DependencyType| 0 <= i < k && selects(types, d) && graph.known@[p]
                        && #[trigger] graph.reaches(targets@[i] as int, initial_kind(d), p);
                    assert(0 <= i < k + 1);
                }
                if selects(types, DependencyType::Standard) && graph.known@[p] && graph.reaches(t as int, initial_kind(DependencyType::Standard), p) {
                    assert(graph.reaches(targets@[k as int] as int, initial_kind(DependencyType::Standard), p));
                }
                if selects(types, DependencyType::Dev) && graph.known@[p] && graph.reaches(t as int, initial_kind(DependencyType::Dev), p) {
                    assert(graph.reaches(targets@[k as int] as int, initial_kind(DependencyType::Dev), p));
                }
                if selects(types, DependencyType::Build) && graph.known@[p] && graph.reaches(t as int, initial_kind(DependencyType::Build), p) {
                    assert(graph.reaches(targets@[k as int] as int, initial_kind(DependencyType::Build), p));
                }
            }
        }
        k = k + 1;
    }
    r
}

impl DepGraph {
    /// Whether `p` has a dependency edge, of any kind, to `q`.
    pub open spec fn any_edge(&self, p: int, q: int) -> bool {
        &&& 0 <= p < self.edges@.len()
        &&& exists|e: int| 0 <= e < self.out_edges(p).len() && (#[trigger] self.out_edges(p)[e]).target == q
    }

    /// Whether `path` follows dependency edges of any kind from `root`.
    #[verifier::opaque]
    pub open spec fn chain(&self, root: int, path: Seq<int>) -> bool {
        &&& path.len() > 0
        &&& self.any_edge(root, path[0])
        &&& forall|j: int| 0 <= j < path.len() - 1 ==> #[trigger] self.any_edge(path[j], path[j + 1])
    }

    /// Whether `root` depends on `p`, directly or through other packages.
    #[verifier::opaque]
    pub open spec fn depends_on(&self, root: int, p: int) -> bool {
        exists|path: Seq<int>| #[trigger] self.chain(root, path) && path.last() == p
    }
}

/// The number of packages that `root` depends on, directly or transitively.
pub open spec fn dependency_count(graph: &DepGraph, root: int) -> nat {
    count_true(Seq::new(graph.size() as nat, |p: int| graph.depends_on(root, p)))
}

/// Appends the targets of all of `p`'s edges to the queue.
fn push_all_targets(graph: &DepGraph, p: usize, queue: &mut Vec<usize>)
    requires
        graph.wf(),
        p < graph.size(),
    ensures
        old(queue)@.len() <= final(queue)@.len(),
        forall|j: int| 0 <= j < old(queue)@.len() ==> final(queue)@[j] == old(queue)@[j],
        forall|j: int| old(queue)@.len() <= j < final(queue)@.len()
            ==> graph.any_edge(p as int, #[trigger] final(queue)@[j] as int) && final(queue)@[j] < graph.size(),
        forall|q: int| #[trigger] graph.any_edge(p as int, q) ==> queued(final(queue)@, q) && 0 <= q < graph.size(),
{
    match &graph.edges[p] {
        None => {},
        Some(es) => {
            let ghost start = queue@;
            let mut e: usize = 0;
            while e < es.len()
                invariant
                    graph.wf(),
                    p < graph.size(),
                    graph.edges@[p as int] == Some(*es),
                    e <= es@.len(),
                    start.len() <= queue@.len(),
                    forall|j: int| 0 <= j < start.len() ==> queue@[j] == start[j],
                    forall|j: int| start.len() <= j < queue@.len()
                        ==> graph.any_edge(p as int, #[trigger] queue@[j] as int) && queue@[j] < graph.size(),
                    forall|f: int| 0 <= f < e ==> queued(queue@, (#[trigger] es@[f]).target as int),
                decreases es@.len() - e,
            {
                assert(graph.out_edges(p as int) == es@);
                assert(graph.out_edges(p as int)[e as int].target < graph.size());
                let ghost prev = queue@;
                let t = es[e].target;
                queue.push(t);
                assert(queue@[queue@.len() - 1] == t);
                assert(graph.out_edges(p as int)[e as int].target == t);
                assert(graph.any_edge(p as int, t as int));
                proof {
                    assert forall|f: int| 0 <= f < e + 1 implies queued(queue@, (#[trigger] es@[f]).target as int) by {
                        if f < e {
                            let j = choose|j: int| 0 <= j < prev.len() && prev[j] == es@[f].target;
                            assert(queue@[j] == es@[f].target);
                        } else {
                            assert(queue@[queue@.len() - 1] == es@[f].target);
                        }
                    }
                }
                e = e + 1;
            }
            proof {
                assert(graph.out_edges(p as int) == es@);
                assert forall|q: int| #[trigger] graph.any_edge(p as int, q) implies queued(queue@, q) && 0 <= q < graph.size() by {
                    let f = choose|f: int| 0 <= f < graph.out_edges(p as int).len() && (#[trigger] graph.out_edges(p as int)[f]).target == q;
                    assert(queued(queue@, es@[f].target as int));
                }
            }
        },
    }
}

/// A direct dependency is a dependency.
proof fn lemma_depends_first(graph: &DepGraph, root: int, q: int)
    requires
        graph.any_edge(root, q),
    ensures
        graph.depends_on(root, q),
{
    reveal(DepGraph::chain);
    reveal(DepGraph::depends_on);
    let path = seq![q];
    assert(graph.chain(root, path));
}

/// A dependency of a dependency is a dependency.
proof fn lemma_depends_step(graph: &DepGraph, root: int, p: int, q: int)
    requires
        graph.depends_on(root, p),
        graph.any_edge(p, q),
    ensures
        graph.depends_on(root, q),
{
    reveal(DepGraph::chain);
    reveal(DepGraph::depends_on);
    let path = choose|path: Seq<int>| #[trigger] graph.chain(root, path) && path.last() == p;
    let longer = path.push(q);
    assert forall|m: int| 0 <= m < longer.len() - 1 implies #[trigger] graph.any_edge(longer[m], longer[m + 1]) by {
        if m < path.len() - 1 {
            assert(longer[m] == path[m]);
            assert(longer[m + 1] == path[m + 1]);
        } else {
            assert(longer[m] == p);
            assert(longer[m + 1] == q);
        }
    }
    assert(graph.chain(root, longer));
    assert(longer.last() == q);
}

/// A set of packages that holds the direct dependencies and is closed under
/// dependency edges holds the end of every chain.
proof fn lemma_chain_visited(graph: &DepGraph, root: int, path: Seq<int>, visited: Seq<bool>)
    requires
        visited.len() == graph.size(),
        graph.chain(root, path),
        forall|q: int| #[trigger] graph.any_edge(root, q) ==> 0 <= q < graph.size() && visited[q],
        forall|a: int, q: int| 0 <= a < graph.size() && visited[a] && #[trigger] graph.any_edge(a, q)
            ==> 0 <= q < graph.size() && visited[q],
    ensures
        0 <= path.last() < graph.size(),
        visited[path.last()],
    decreases path.len(),
{
    reveal(DepGraph::chain);
    if path.len() > 1 {
        let prefix = path.drop_last();
        assert(graph.chain(root, prefix)) by {
            assert forall|j: int| 0 <= j < prefix.len() - 1 implies #[trigger] graph.any_edge(prefix[j], prefix[j + 1]) by {
                assert(prefix[j] == path[j]);
                assert(prefix[j + 1] == path[j + 1]);
            }
        }
        lemma_chain_visited(graph, root, prefix, visited);
        let j = path.len() - 2;
        assert(graph.any_edge(path[j], path[j + 1]));
    }
}

/// One step of the count keeps its invariants: `p` was taken from the
/// queue; when it was new it is now visited and its dependencies queued.
#[verifier::rlimit(50)]
proof fn lemma_count_step(
    graph: &DepGraph,
    root: int,
    p: int,
    before: Seq<usize>,
    mid: Seq<usize>,
    after: Seq<usize>,
    old_visited: Seq<bool>,
    visited: Seq<bool>,
)
    requires
        graph.wf(),
        graph.size() <= usize::MAX,
        0 <= root < graph.size(),
        0 <= p < graph.size(),
        old_visited.len() == graph.size(),
        before == mid.push(p as usize),
        forall|j: int| 0 <= j < before.len() ==> #[trigger] before[j] < graph.size()
            && graph.depends_on(root, before[j] as int),
        forall|x: int| 0 <= x < graph.size() && old_visited[x] ==> graph.depends_on(root, x),
        forall|q: int| #[trigger] graph.any_edge(root, q) ==> (0 <= q < graph.size() && old_visited[q]) || queued(before, q),
        forall|a: int, q: int| 0 <= a < graph.size() && old_visited[a] && #[trigger] graph.any_edge(a, q)
            ==> (0 <= q < graph.size() && old_visited[q]) || queued(before, q),
        old_visited[p] ==> visited == old_visited && after == mid,
        !old_visited[p] ==> {
            &&& visited == old_visited.update(p, true)
            &&& mid.len() <= after.len()
            &&& forall|j: int| 0 <= j < mid.len() ==> after[j] == mid[j]
            &&& forall|j: int| mid.len() <= j < after.len() ==> graph.any_edge(p, #[trigger] after[j] as int) && after[j] < graph.size()
            &&& forall|q: int| #[trigger] graph.any_edge(p, q) ==> queued(after, q) && 0 <= q < graph.size()
        },
    ensures
        visited.len() == graph.size(),
        forall|j: int| 0 <= j < after.len() ==> #[trigger] after[j] < graph.size()
            && graph.depends_on(root, after[j] as int),
        forall|x: int| 0 <= x < graph.size() && visited[x] ==> graph.depends_on(root, x),
        forall|q: int| #[trigger] graph.any_edge(root, q) ==> (0 <= q < graph.size() && visited[q]) || queued(after, q),
        forall|a: int, q: int| 0 <= a < graph.size() && visited[a] && #[trigger] graph.any_edge(a, q)
            ==> (0 <= q < graph.size() && visited[q]) || queued(after, q),
{
    let n = graph.size();
    assert(before[before.len() - 1] == p as usize);
    assert(graph.depends_on(root, p));
    assert forall|q: int| queued(before, q) && !(0 <= q < n && visited[q]) implies queued(after, q) by {
        let j = choose|j: int| 0 <= j < before.len() && before[j] as int == q;
        if j == before.len() - 1 {
            assert(q == p);
            assert(visited[q]);
        } else {
            assert(mid[j] as int == q);
            assert(after[j] as int == q);
        }
    }
    assert forall|j: int| 0 <= j < after.len() implies #[trigger] after[j] < n && graph.depends_on(root, after[j] as int) by {
        if j < mid.len() {
            assert(after[j] == mid[j]);
            assert(before[j] == mid[j]);
        } else {
            lemma_depends_step(graph, root, p, after[j] as int);
        }
    }
}

/// The number of packages that `root` depends on, following dependency
/// edges of every kind, from every package of the resolved graph; `root`
/// itself counts only when a cycle leads back to it.
#[verifier::rlimit(50)]
pub fn count_transitive_dependencies(graph: &DepGraph, root: usize) -> (r: usize)
    requires
        graph.wf(),
        root < graph.size(),
    ensures
        r == dependency_count(graph, root as int),
{
    let n = graph.known.len();
    let mut queue: Vec<usize> = Vec::new();
    push_all_targets(graph, root, &mut queue);
    let mut visited: Vec<bool> = Vec::new();
    let mut i: usize = 0;
    while i < n
        invariant
            i <= n,
            visited@.len() == i,
            forall|j: int| 0 <= j < i ==> !visited@[j],
        decreases n - i,
    {
        visited.push(false);
        i = i + 1;
    }
    let mut seen_count: usize = 0;
    proof {
        assert forall|j: int| 0 <= j < queue@.len() implies #[trigger] queue@[j] < graph.size()
            && graph.depends_on(root as int, queue@[j] as int) by {
            lemma_depends_first(graph, root as int, queue@[j] as int);
        }
        lemma_count_true_none(visited@);
    }
    while queue.len() > 0
        invariant
            graph.wf(),
            root < graph.size(),
            n == graph.size(),
            visited@.len() == n,
            seen_count == count_true(visited@),
            forall|j: int| 0 <= j < queue@.len() ==> #[trigger] queue@[j] < n
                && graph.depends_on(root as int, queue@[j] as int),
            forall|p: int| 0 <= p < n && visited@[p] ==> graph.depends_on(root as int, p),
            forall|q: int| #[trigger] graph.any_edge(root as int, q) ==> (0 <= q < n && visited@[q]) || queued(queue@, q),
            forall|p: int, q: int| 0 <= p < n && visited@[p] && #[trigger] graph.any_edge(p, q)
                ==> (0 <= q < n && visited@[q]) || queued(queue@, q),
        decreases n - seen_count, queue@.len(),
    {
        proof { lemma_count_true_bound(visited@); }
        let ghost before_queue = queue@;
        let p = queue.pop().unwrap();
        assert(before_queue == queue@.push(p));
        let ghost mid_queue = queue@;
        let ghost old_visited = visited@;
        if !visited[p] {
            visited.set(p, true);
            proof { lemma_count_true_update(old_visited, p as int); }
            seen_count = seen_count + 1;
            push_all_targets(graph, p, &mut queue);
        }
        proof {
            assert(before_queue[before_queue.len() - 1] == p);
            lemma_count_step(graph, root as int, p as int, before_queue, mid_queue, queue@, old_visited, visited@);
        }
    }
    proof {
        assert forall|p: int| 0 <= p < n && graph.depends_on(root as int, p) implies visited@[p] by {
            reveal(DepGraph::depends_on);
            let path = choose|path: Seq<int>| #[trigger] graph.chain(root as int, path) && path.last() == p;
            lemma_chain_visited(graph, root as int, path, visited@);
        }
        assert(visited@ =~= Seq::new(graph.size() as nat, |p: int| graph.depends_on(root as int, p)));
    }
    seen_count
}

/// Whether two strings have the same text.
fn same_text(a: &str, b: &str) -> (r: bool)
    ensures
        r == (a@ == b@),
{
    let x = a.to_owned();
    let y = b.to_owned();
    x == y
}

/// Whether `names` holds the text `t`.
pub open spec fn names_hold(names: Seq<Seq<char>>, t: Seq<char>) -> bool {
    exists|j: int| 0 <= j < names.len() && names[j] == t
}

/// The error for a requested package that is not a workspace member.
pub open spec fn not_found_text(name: Seq<char>) -> Seq<char> {
    seq!['p', 'a', 'c', 'k', 'a', 'g', 'e', ' ', '\''] + name
        + seq!['\'', ' ', 'n', 'o', 't', ' ', 'f', 'o', 'u', 'n', 'd', ' ', 'i', 'n', ' ', 'w', 'o', 'r', 'k', 's', 'p', 'a',
        'c', 'e']
}

/// Whether `name` is among `names`.
fn holds_text(names: &[&str], name: &str) -> (r: bool)
    ensures
        r == names_hold(names@.map_values(|n: &str| n@), name@),
{
    let ghost views = names@.map_values(|n: &str| n@);
    let mut i: usize = 0;
    while i < names.len()
        invariant
            i <= names@.len(),
            views == names@.map_values(|n: &str| n@),
            forall|j: int| 0 <= j < i ==> views[j] != name@,
        decreases names@.len() - i,
    {
        if same_text(names[i], name) {
            assert(views[i as int] == name@);
            return true;
        }
        i = i + 1;
    }
    false
}

/// The workspace members to appraise, by position: with packages named,
/// the members with those names (every name must be a member's); otherwise
/// all members for the whole workspace, else the root package, else (a
/// virtual workspace) all members.
pub open spec fn selected_members(
    members: Seq<Seq<char>>,
    root: Option<int>,
    requested: Seq<Seq<char>>,
    workspace: bool,
) -> Result<Seq<int>, Seq<char>> {
    if requested.len() > 0 {
        match first_missing(members, requested, 0) {
            Some(j) => Err(not_found_text(requested[j])),
            None => Ok(named_members(members, requested, members.len() as int)),
        }
    } else if workspace {
        Ok(Seq::new(members.len(), |i: int| i))
    } else {
        match root {
            Some(r) => Ok(seq![r]),
            None => Ok(Seq::new(members.len(), |i: int| i)),
        }
    }
}

/// The first requested name from `j` on that is no member's.
pub open spec fn first_missing(members: Seq<Seq<char>>, requested: Seq<Seq<char>>, j: int) -> Option<int>
    decreases requested.len() - j,
{
    if j < 0 || j >= requested.len() {
        None
    } else if !names_hold(members, requested[j]) {
        Some(j)
    } else {
        first_missing(members, requested, j + 1)
    }
}
/// The positions among the first `n` members whose names are requested.
pub open spec fn named_members(members: Seq<Seq<char>>, requested: Seq<Seq<char>>, n: int) -> Seq<int>
    decreases n,
{
    if n <= 0 {
        Seq::empty()
    } else if names_hold(requested, members[n - 1]) {
        named_members(members, requested, n - 1).push(n - 1)
    } else {
        named_members(members, requested, n - 1)
    }
}

/// All positions below `n`.
fn all_positions(n: usize) -> (r: Vec<usize>)
    ensures
        r@.map_values(|i: usize| i as int) == Seq::new(n as nat, |i: int| i),
{
    let mut r: Vec<usize> = Vec::new();
    let mut i: usize = 0;
    while i < n
        invariant
            i <= n,
            r@.len() == i,
            r@.map_values(|k: usize| k as int) == Seq::new(i as nat, |k: int| k),
        decreases n - i,
    {
        let ghost prev = r@;
        let ghost prev_mapped = prev.map_values(|x: usize| x as int);
        r.push(i);
        let ghost mapped = r@.map_values(|x: usize| x as int);
        assert forall|k: int| 0 <= k < i + 1 implies #[trigger] mapped[k] == k by {
            if k < i {
                assert(r@[k] == prev[k]);
                assert(prev_mapped[k] == k);
            }
        }
        assert(mapped =~= Seq::new((i + 1) as nat, |k: int| k));
        i = i + 1;
    }
    r
}

/// The workspace members to appraise (see `selected_members`), by position.
pub fn select_target_packages(members: &[&str], root: Option<usize>, requested: &[&str], workspace: bool) -> (r: Result<Vec<usize>, String>)
    ensures
        ({
            let m = members@.map_values(|n: &str| n@);
            let q = requested@.map_values(|n: &str| n@);
            let rt = match root { Some(x) => Some(x as int), None => None::<int> };
            match (r, selected_members(m, rt, q, workspace)) {
                (Ok(v), Ok(w)) => v@.map_values(|i: usize| i as int) == w,
                (Err(e), Err(t)) => e@ == t,
                _ => false,
            }
        }),
{
    let ghost m = members@.map_values(|n: &str| n@);
    let ghost q = requested@.map_values(|n: &str| n@);
    if requested.len() > 0 {
        let mut j: usize = 0;
        while j < requested.len()
            invariant
                j <= requested@.len(),
                requested@.len() > 0,
                m == members@.map_values(|n: &str| n@),
                q == requested@.map_values(|n: &str| n@),
                first_missing(m, q, 0) == first_missing(m, q, j as int),
            decreases requested@.len() - j,
        {
            if !holds_text(members, requested[j]) {
                proof { reveal_strlit("package '"); reveal_strlit("' not found in workspace"); }
                let mut e = String::new();
                crate::text::push_str(&mut e, "package '");
                crate::text::push_str(&mut e, requested[j]);
                crate::text::push_str(&mut e, "' not found in workspace");
                assert(e@ =~= not_found_text(q[j as int]));
                return Err(e);
            }
            j = j + 1;
        }
        let mut out: Vec<usize> = Vec::new();
        let mut i: usize = 0;
        while i < members.len()
            invariant
                i <= members@.len(),
                m == members@.map_values(|n: &str| n@),
                q == requested@.map_values(|n: &str| n@),
                out@.map_values(|k: usize| k as int) == named_members(m, q, i as int),
            decreases members@.len() - i,
        {
            if holds_text(requested, members[i]) {
                out.push(i);
                assert(out@.map_values(|k: usize| k as int) =~= named_members(m, q, i as int).push(i as int));
            }
            i = i + 1;
        }
        Ok(out)
    } else if workspace {
        Ok(all_positions(members.len()))
    } else {
        match root {
            Some(x) => {
                let v = vec![x];
                assert(v@.map_values(|k: usize| k as int) =~= seq![x as int]);
                Ok(v)
            },
            None => Ok(all_positions(members.len())),
        }
    }
}

} // verus!
