//! Recovery graph: dependency and impact edges between entities, and the
//! upstream and downstream impact of a failure.
use vstd::prelude::*;
use crate::text::{
    contains_text, has_text, insert_sorted_unique, lemma_seq_lt_total, lemma_seq_lt_transitive, seq_lt, sorted_strict,
    str_eq, str_lt, concat2, opt_text,
};
use crate::recovery::entity::{
    entity_named, first_id, get_named, EntityKind, EntityRecord, EntityRegistry, EntityRelationship,
    EntityRelationshipKind,
};

verus! {

/// Edge in the recovery graph.
#[derive(Debug, Clone, PartialEq, Eq)]
pub struct RecoveryGraphEdge {
    pub from: String,
    pub to: String,
    pub relationship: String,
    pub critical: bool,
}

/// The entity an edge leaves, read forward, or enters, read backward.
pub open spec fn edge_source(e: RecoveryGraphEdge, forward: bool) -> Seq<char> {
    if forward {
        e.from@
    } else {
        e.to@
    }
}

/// The entity an edge enters, read forward, or leaves, read backward.
pub open spec fn edge_target(e: RecoveryGraphEdge, forward: bool) -> Seq<char> {
    if forward {
        e.to@
    } else {
        e.from@
    }
}

/// Some edge leads from `a` to `b` in the given direction.
pub open spec fn step(edges: Seq<RecoveryGraphEdge>, forward: bool, a: Seq<char>, b: Seq<char>) -> bool {
    exists|k: int|
        0 <= k < edges.len() && edge_source(#[trigger] edges[k], forward) == a && edge_target(
            edges[k],
            forward,
        ) == b
}

/// `p` is a walk along the edges in the given direction.
pub open spec fn is_walk(edges: Seq<RecoveryGraphEdge>, forward: bool, p: Seq<Seq<char>>) -> bool {
    p.len() >= 1 && forall|i: int| 0 <= i < p.len() - 1 ==> step(edges, forward, #[trigger] p[i], p[i + 1])
}

/// `b` can be reached from `a` along the edges in the given direction.
pub open spec fn reaches(edges: Seq<RecoveryGraphEdge>, forward: bool, a: Seq<char>, b: Seq<char>) -> bool {
    exists|p: Seq<Seq<char>>| #[trigger] is_walk(edges, forward, p) && p[0] == a && p.last() == b
}

/// Every edge leaving a visited entity enters a visited entity.
pub open spec fn closed(edges: Seq<RecoveryGraphEdge>, forward: bool, vis: Seq<String>) -> bool {
    forall|k: int|
        0 <= k < edges.len() && has_text(vis, edge_source(#[trigger] edges[k], forward)) ==> has_text(
            vis,
            edge_target(edges[k], forward),
        )
}

/// The number of edges whose target has not been visited.
pub open spec fn unvisited_targets(edges: Seq<RecoveryGraphEdge>, forward: bool, vis: Seq<String>) -> nat
    decreases edges.len(),
{
    if edges.len() == 0 {
        0
    } else {
        unvisited_targets(edges.drop_last(), forward, vis) + if has_text(
            vis,
            edge_target(edges.last(), forward),
        ) {
            0nat
        } else {
            1nat
        }
    }
}

proof fn lemma_unvisited_shrinks(
    edges: Seq<RecoveryGraphEdge>,
    forward: bool,
    a: Seq<String>,
    b: Seq<String>,
)
    requires
        forall|t: Seq<char>| has_text(a, t) ==> has_text(b, t),
    ensures
        unvisited_targets(edges, forward, b) <= unvisited_targets(edges, forward, a),
        (exists|k: int|
            0 <= k < edges.len() && !has_text(a, edge_target(#[trigger] edges[k], forward))
                && has_text(b, edge_target(edges[k], forward))) ==> unvisited_targets(edges, forward, b)
            < unvisited_targets(edges, forward, a),
    decreases edges.len(),
{
    if edges.len() > 0 {
        let t = edges.drop_last();
        lemma_unvisited_shrinks(t, forward, a, b);
        if exists|k: int|
            0 <= k < edges.len() && !has_text(a, edge_target(#[trigger] edges[k], forward))
                && has_text(b, edge_target(edges[k], forward)) {
            let k = choose|k: int|
                0 <= k < edges.len() && !has_text(a, edge_target(#[trigger] edges[k], forward))
                    && has_text(b, edge_target(edges[k], forward));
            if k < edges.len() - 1 {
                assert(t[k] == edges[k]);
            }
        }
    }
}

proof fn lemma_closed_holds_reach(
    edges: Seq<RecoveryGraphEdge>,
    forward: bool,
    vis: Seq<String>,
    p: Seq<Seq<char>>,
)
    requires
        closed(edges, forward, vis),
        is_walk(edges, forward, p),
        has_text(vis, p[0]),
    ensures
        has_text(vis, p.last()),
    decreases p.len(),
{
    if p.len() > 1 {
        let q = p.drop_last();
        assert forall|i: int| 0 <= i < q.len() - 1 implies step(edges, forward, #[trigger] q[i], q[i + 1]) by {
            assert(q[i] == p[i] && q[i + 1] == p[i + 1]);
        }
        lemma_closed_holds_reach(edges, forward, vis, q);
        assert(step(edges, forward, p[p.len() - 2], p[p.len() - 1]));
        let k = choose|k: int|
            0 <= k < edges.len() && edge_source(#[trigger] edges[k], forward) == p[p.len() - 2]
                && edge_target(edges[k], forward) == p[p.len() - 1];
        assert(q.last() == p[p.len() - 2]);
    }
}

proof fn lemma_extend_reach(
    edges: Seq<RecoveryGraphEdge>,
    forward: bool,
    start: Seq<char>,
    k: int,
)
    requires
        0 <= k < edges.len(),
        reaches(edges, forward, start, edge_source(edges[k], forward)),
    ensures
        reaches(edges, forward, start, edge_target(edges[k], forward)),
{
    let p = choose|p: Seq<Seq<char>>|
        #[trigger] is_walk(edges, forward, p) && p[0] == start && p.last() == edge_source(edges[k], forward);
    let q = p.push(edge_target(edges[k], forward));
    assert forall|i: int| 0 <= i < q.len() - 1 implies step(edges, forward, #[trigger] q[i], q[i + 1]) by {
        if i < p.len() - 1 {
            assert(q[i] == p[i] && q[i + 1] == p[i + 1]);
        } else {
            assert(q[i] == p.last());
            assert(edge_source(edges[k], forward) == q[i] && edge_target(edges[k], forward) == q[i + 1]);
        }
    }
    assert(is_walk(edges, forward, q));
}


/// Every entity reachable from `start` along the edges in one direction,
/// `start` included.
pub(crate) fn reachable_from(edges: &Vec<RecoveryGraphEdge>, start: &str, forward: bool) -> (r: Vec<String>)
    ensures
        forall|t: Seq<char>| has_text(r@, t) <==> reaches(edges@, forward, start@, t),
{
    let mut vis: Vec<String> = Vec::new();
    vis.push(start.to_owned());
    proof {
        let p = seq![start@];
        assert(is_walk(edges@, forward, p));
        assert(vis@[0]@ == start@);
    }
    loop
        invariant_except_break
            has_text(vis@, start@),
            forall|t: Seq<char>| has_text(vis@, t) ==> reaches(edges@, forward, start@, t),
        ensures
            has_text(vis@, start@),
            forall|t: Seq<char>| has_text(vis@, t) ==> reaches(edges@, forward, start@, t),
            closed(edges@, forward, vis@),
        decreases unvisited_targets(edges@, forward, vis@),
    {
        let ghost round_start = vis@;
        let mut changed = false;
        let mut k: usize = 0;
        while k < edges.len()
            invariant
                k <= edges.len(),
                has_text(vis@, start@),
                forall|t: Seq<char>| has_text(vis@, t) ==> reaches(edges@, forward, start@, t),
                forall|t: Seq<char>| has_text(round_start, t) ==> has_text(vis@, t),
                !changed ==> vis@ == round_start,
                !changed ==> forall|j: int|
                    0 <= j < k && has_text(vis@, edge_source(#[trigger] edges@[j], forward)) ==> has_text(
                        vis@,
                        edge_target(edges@[j], forward),
                    ),
                changed ==> exists|j: int|
                    0 <= j < edges@.len() && !has_text(round_start, edge_target(#[trigger] edges@[j], forward))
                        && has_text(vis@, edge_target(edges@[j], forward)),
            decreases edges.len() - k,
        {
            let e = &edges[k];
            let (a, b) = if forward {
                (e.from.as_str(), e.to.as_str())
            } else {
                (e.to.as_str(), e.from.as_str())
            };
            assert(a@ == edge_source(edges@[k as int], forward));
            assert(b@ == edge_target(edges@[k as int], forward));
            if contains_text(&vis, a) && !contains_text(&vis, b) {
                let ghost before = vis@;
                proof {
                    lemma_extend_reach(edges@, forward, start@, k as int);
                }
                assert(forall|t: Seq<char>| has_text(before, t) ==> reaches(edges@, forward, start@, t));
                vis.push(b.to_owned());
                proof {
                    assert(vis@[before.len() as int]@ == b@);
                    assert forall|t: Seq<char>| has_text(vis@, t) implies reaches(edges@, forward, start@, t) by {
                        let i = choose|i: int| 0 <= i < vis@.len() && #[trigger] vis@[i]@ == t;
                        if i < before.len() {
                            assert(before[i]@ == t);
                            assert(has_text(before, t));
                            assert(reaches(edges@, forward, start@, t));
                        } else {
                            assert(i == before.len());
                            assert(t == b@);
                            assert(b@ == edge_target(edges@[k as int], forward));
                            assert(reaches(edges@, forward, start@, edge_target(edges@[k as int], forward)));
                        }
                    }
                    assert forall|t: Seq<char>| has_text(before, t) implies has_text(vis@, t) by {
                        let i = choose|i: int| 0 <= i < before.len() && #[trigger] before[i]@ == t;
                        assert(vis@[i]@ == t);
                    }
                    if !changed {
                        assert(!has_text(round_start, edge_target(edges@[k as int], forward)));
                    } else {
                        let j = choose|j: int|
                            0 <= j < edges@.len() && !has_text(round_start, edge_target(#[trigger] edges@[j], forward))
                                && has_text(before, edge_target(edges@[j], forward));
                        assert(has_text(vis@, edge_target(edges@[j], forward)));
                    }
                    assert(has_text(vis@, edge_target(edges@[k as int], forward)));
                }
                changed = true;
            }
            k = k + 1;
        }
        if !changed {
            break;
        }
        proof {
            lemma_unvisited_shrinks(edges@, forward, round_start, vis@);
        }
    }
    proof {
        assert forall|t: Seq<char>| reaches(edges@, forward, start@, t) implies has_text(vis@, t) by {
            let p = choose|p: Seq<Seq<char>>| #[trigger] is_walk(edges@, forward, p) && p[0] == start@ && p.last() == t;
            lemma_closed_holds_reach(edges@, forward, vis@, p);
        }
    }
    vis
}

pub(crate) fn sorted_without(vis: &Vec<String>, exclude: &str) -> (r: Vec<String>)
    ensures
        sorted_strict(r@),
        forall|t: Seq<char>| has_text(r@, t) <==> (has_text(vis@, t) && t != exclude@),
{
    let mut out: Vec<String> = Vec::new();
    let mut i: usize = 0;
    while i < vis.len()
        invariant
            i <= vis.len(),
            sorted_strict(out@),
            forall|t: Seq<char>|
                has_text(out@, t) <==> (has_text(vis@.take(i as int), t) && t != exclude@),
        decreases vis.len() - i,
    {
        let ghost before = out@;
        let ghost a = vis@.take(i as int);
        let ghost b = vis@.take(i + 1);
        if !str_eq(vis[i].as_str(), exclude) {
            let x = vis[i].clone();
            insert_sorted_unique(&mut out, x);
        }
        proof {
            assert forall|t: Seq<char>|
                has_text(out@, t) <==> (has_text(b, t) && t != exclude@) by {
                if has_text(a, t) {
                    let k = choose|k: int| 0 <= k < a.len() && #[trigger] a[k]@ == t;
                    assert(b[k]@ == t);
                }
                if has_text(b, t) {
                    let k = choose|k: int| 0 <= k < b.len() && #[trigger] b[k]@ == t;
                    if k < i {
                        assert(a[k]@ == t);
                    }
                }
                if t == vis@[i as int]@ {
                    assert(b[i as int]@ == t);
                }
            }
        }
        i = i + 1;
    }
    assert(vis@.take(vis.len() as int) =~= vis@);
    out
}

/// Full recovery graph with dependency and impact views.
#[derive(Debug, Clone, PartialEq, Eq)]
pub struct RecoveryGraph {
    pub nodes: Vec<RecoveryGraphNode>,
    pub dependency_edges: Vec<RecoveryGraphEdge>,
    pub impact_edges: Vec<RecoveryGraphEdge>,
    pub recovery_edges: Vec<RecoveryGraphEdge>,
    pub root_entity_id: Option<String>,
}

/// The upstream and downstream impact of a failed entity: the entities it
/// depends on, directly or not, and those that depend on it, each sorted
/// and without the failed entity itself.
pub fn analyze_impact(graph: &RecoveryGraph, failed_entity_id: &str) -> (r: (Vec<String>, Vec<String>))
    ensures
        sorted_strict(r.0@),
        sorted_strict(r.1@),
        forall|t: Seq<char>|
            has_text(r.0@, t) <==> (t != failed_entity_id@ && reaches(
                graph.dependency_edges@,
                true,
                failed_entity_id@,
                t,
            )),
        forall|t: Seq<char>|
            has_text(r.1@, t) <==> (t != failed_entity_id@ && reaches(
                graph.dependency_edges@,
                false,
                failed_entity_id@,
                t,
            )),
{
    let up_all = reachable_from(&graph.dependency_edges, failed_entity_id, true);
    let down_all = reachable_from(&graph.dependency_edges, failed_entity_id, false);
    let up = sorted_without(&up_all, failed_entity_id);
    let down = sorted_without(&down_all, failed_entity_id);
    (up, down)
}

/// An entity that reaches the failed one is upstream of it exactly when the
/// failed one is downstream of it: impact read forward and backward agree.
pub proof fn law_impact_directions_agree(edges: Seq<RecoveryGraphEdge>, a: Seq<char>, b: Seq<char>)
    ensures
        reaches(edges, true, a, b) <==> reaches(edges, false, b, a),
{
    if reaches(edges, true, a, b) {
        let p = choose|p: Seq<Seq<char>>| #[trigger] is_walk(edges, true, p) && p[0] == a && p.last() == b;
        let q = p.reverse();
        assert forall|i: int| 0 <= i < q.len() - 1 implies step(edges, false, #[trigger] q[i], q[i + 1]) by {
            let j = p.len() - 2 - i;
            assert(q[i] == p[j + 1] && q[i + 1] == p[j]);
            assert(step(edges, true, p[j], p[j + 1]));
            let k = choose|k: int|
                0 <= k < edges.len() && edge_source(#[trigger] edges[k], true) == p[j] && edge_target(edges[k], true) == p[j + 1];
            assert(edge_source(edges[k], false) == q[i] && edge_target(edges[k], false) == q[i + 1]);
        }
        assert(is_walk(edges, false, q));
        assert(q[0] == b && q.last() == a);
    }
    if reaches(edges, false, b, a) {
        let p = choose|p: Seq<Seq<char>>| #[trigger] is_walk(edges, false, p) && p[0] == b && p.last() == a;
        let q = p.reverse();
        assert forall|i: int| 0 <= i < q.len() - 1 implies step(edges, true, #[trigger] q[i], q[i + 1]) by {
            let j = p.len() - 2 - i;
            assert(q[i] == p[j + 1] && q[i + 1] == p[j]);
            assert(step(edges, false, p[j], p[j + 1]));
            let k = choose|k: int|
                0 <= k < edges.len() && edge_source(#[trigger] edges[k], false) == p[j] && edge_target(edges[k], false) == p[j + 1];
            assert(edge_source(edges[k], true) == q[i] && edge_target(edges[k], true) == q[i + 1]);
        }
        assert(is_walk(edges, true, q));
        assert(q[0] == a && q.last() == b);
    }
}

/// `b` can be reached from `a` in at most `n` steps along the edges.
pub open spec fn within(edges: Seq<RecoveryGraphEdge>, a: Seq<char>, b: Seq<char>, n: nat) -> bool
    decreases n,
{
    if n == 0 {
        a == b
    } else {
        within(edges, a, b, (n - 1) as nat) || exists|k: int|
            0 <= k < edges.len() && within(edges, a, (#[trigger] edges[k]).from@, (n - 1) as nat) && edges[k].to@ == b
    }
}

/// `x` is the fewest steps from `a` to `b`.
pub open spec fn distance_is(edges: Seq<RecoveryGraphEdge>, a: Seq<char>, b: Seq<char>, x: nat) -> bool {
    within(edges, a, b, x) && (x == 0 || !within(edges, a, b, (x - 1) as nat))
}

proof fn lemma_unvisited_le(edges: Seq<RecoveryGraphEdge>, forward: bool, vis: Seq<String>)
    ensures
        unvisited_targets(edges, forward, vis) <= edges.len(),
    decreases edges.len(),
{
    if edges.len() > 0 {
        lemma_unvisited_le(edges.drop_last(), forward, vis);
    }
}

proof fn lemma_within_monotone(edges: Seq<RecoveryGraphEdge>, a: Seq<char>, b: Seq<char>, n: nat, m: nat)
    requires
        n <= m,
        within(edges, a, b, n),
    ensures
        within(edges, a, b, m),
    decreases m - n,
{
    if n < m {
        lemma_within_monotone(edges, a, b, n, (m - 1) as nat);
    }
}

proof fn lemma_within_stable(edges: Seq<RecoveryGraphEdge>, a: Seq<char>, d: nat, m: nat)
    requires
        d <= m,
        forall|t: Seq<char>| #[trigger] within(edges, a, t, d + 1) ==> within(edges, a, t, d),
    ensures
        forall|t: Seq<char>| #[trigger] within(edges, a, t, m) ==> within(edges, a, t, d),
    decreases m - d,
{
    if d < m {
        lemma_within_stable(edges, a, d, (m - 1) as nat);
        assert forall|t: Seq<char>| #[trigger] within(edges, a, t, m) implies within(edges, a, t, d) by {
            if m > d && !within(edges, a, t, (m - 1) as nat) {
                let k = choose|k: int|
                    0 <= k < edges.len() && within(edges, a, (#[trigger] edges[k]).from@, (m - 1) as nat) && edges[k].to@ == t;
                assert(within(edges, a, edges[k].from@, d));
                assert(within(edges, a, t, d + 1));
            }
        }
    }
}

proof fn lemma_has_text_push(s: Seq<String>, s2: Seq<String>, x: Seq<char>)
    requires
        s2.len() == s.len() + 1,
        forall|i: int| 0 <= i < s.len() ==> s2[i] == s[i],
        s2[s.len() as int]@ == x,
    ensures
        forall|t: Seq<char>| #[trigger] has_text(s2, t) <==> (has_text(s, t) || t == x),
{
    assert forall|t: Seq<char>| #[trigger] has_text(s2, t) <==> (has_text(s, t) || t == x) by {
        if has_text(s2, t) {
            let i = choose|i: int| 0 <= i < s2.len() && #[trigger] s2[i]@ == t;
            if i < s.len() {
                assert(s[i]@ == t);
            }
        }
        if has_text(s, t) {
            let i = choose|i: int| 0 <= i < s.len() && #[trigger] s[i]@ == t;
            assert(s2[i]@ == t);
        }
        if t == x {
            assert(s2[s.len() as int]@ == t);
        }
    }
}

fn find_text(v: &Vec<String>, x: &str) -> (r: Option<usize>)
    ensures
        match r {
            Some(i) => i < v@.len() && v@[i as int]@ == x@,
            None => !has_text(v@, x@),
        },
{
    let mut i: usize = 0;
    while i < v.len()
        invariant
            i <= v.len(),
            forall|k: int| 0 <= k < i ==> (#[trigger] v@[k])@ != x@,
        decreases v.len() - i,
    {
        if str_eq(v[i].as_str(), x) {
            return Some(i);
        }
        i = i + 1;
    }
    None
}

/// The fewest steps from `start` to each entity reachable from it along the
/// edges: `names[i]` is at distance `dists[i]`, and every reachable entity
/// is listed.
fn distances_from(edges: &Vec<RecoveryGraphEdge>, start: &str) -> (r: (Vec<String>, Vec<u32>))
    requires
        edges@.len() < 0x7fff_ffff,
    ensures
        r.0@.len() == r.1@.len(),
        forall|i: int| 0 <= i < r.0@.len() ==> distance_is(edges@, start@, (#[trigger] r.0@[i])@, r.1@[i] as nat),
        forall|t: Seq<char>, n: nat| #[trigger] within(edges@, start@, t, n) ==> has_text(r.0@, t),
{
    let mut names: Vec<String> = Vec::new();
    let mut dists: Vec<u32> = Vec::new();
    names.push(start.to_owned());
    dists.push(0);
    let mut frontier: Vec<String> = Vec::new();
    frontier.push(start.to_owned());
    let mut d: u32 = 0;
    proof {
        assert(names@[0]@ == start@);
        assert forall|t: Seq<char>| has_text(names@, t) <==> within(edges@, start@, t, 0) by {
            if has_text(names@, t) {
                let i = choose|i: int| 0 <= i < names@.len() && #[trigger] names@[i]@ == t;
            }
        }
        assert forall|t: Seq<char>| has_text(frontier@, t) <==> within(edges@, start@, t, 0) by {
            if has_text(frontier@, t) {
                let i = choose|i: int| 0 <= i < frontier@.len() && #[trigger] frontier@[i]@ == t;
            }
            if within(edges@, start@, t, 0) {
                assert(frontier@[0]@ == t);
            }
        }
    }
    proof {
        lemma_unvisited_le(edges@, true, names@);
    }
    while frontier.len() > 0
        invariant
            edges@.len() < 0x7fff_ffff,
            frontier@.len() > 0,
            names@.len() == dists@.len(),
            d as nat + unvisited_targets(edges@, true, names@) <= edges@.len(),
            forall|t: Seq<char>| has_text(names@, t) <==> within(edges@, start@, t, d as nat),
            forall|i: int| 0 <= i < names@.len() ==> distance_is(edges@, start@, (#[trigger] names@[i])@, dists@[i] as nat),
            forall|t: Seq<char>|
                has_text(frontier@, t) <==> (within(edges@, start@, t, d as nat) && (d == 0 || !within(
                    edges@,
                    start@,
                    t,
                    (d - 1) as nat,
                ))),
        decreases edges@.len() - d,
    {
        let ghost round_names = names@;
        let mut next: Vec<String> = Vec::new();
        let mut k: usize = 0;
        while k < edges.len()
            invariant
                k <= edges.len(),
                edges@.len() < 0x7fff_ffff,
                d as nat + unvisited_targets(edges@, true, round_names) <= edges@.len(),
                names@.len() == dists@.len(),
                forall|t: Seq<char>| has_text(round_names, t) ==> has_text(names@, t),
                forall|t: Seq<char>| has_text(round_names, t) <==> within(edges@, start@, t, d as nat),
                forall|t: Seq<char>|
                    has_text(frontier@, t) <==> (within(edges@, start@, t, d as nat) && (d == 0 || !within(
                        edges@,
                        start@,
                        t,
                        (d - 1) as nat,
                    ))),
                forall|t: Seq<char>| has_text(names@, t) ==> within(edges@, start@, t, d as nat + 1),
                forall|i: int| 0 <= i < names@.len() ==> distance_is(edges@, start@, (#[trigger] names@[i])@, dists@[i] as nat),
                forall|t: Seq<char>|
                    #[trigger] has_text(next@, t) <==> (has_text(names@, t) && !has_text(round_names, t)),
                forall|j: int|
                    0 <= j < k && has_text(frontier@, (#[trigger] edges@[j]).from@) ==> has_text(names@, edges@[j].to@),
                next@.len() > 0 ==> exists|j: int|
                    0 <= j < edges@.len() && !has_text(round_names, edge_target(#[trigger] edges@[j], true))
                        && has_text(names@, edge_target(edges@[j], true)),
            decreases edges.len() - k,
        {
            let e = &edges[k];
            let in_frontier = match find_text(&frontier, e.from.as_str()) {
                Some(fi) => {
                    assert(frontier@[fi as int]@ == e.from@);
                    assert(has_text(frontier@, e.from@));
                    true
                },
                None => false,
            };
            let known = match find_text(&names, e.to.as_str()) {
                Some(ni) => {
                    assert(names@[ni as int]@ == e.to@);
                    true
                },
                None => false,
            };
            assert(has_text(round_names, e.to@) ==> has_text(names@, e.to@));
            assert(in_frontier ==> has_text(frontier@, e.from@));
            assert(known == has_text(names@, e.to@));
            if in_frontier && !known {
                let ghost before = names@;
                let ghost before_next = next@;
                assert(forall|t: Seq<char>| has_text(before, t) ==> within(edges@, start@, t, d as nat + 1));
                assert(forall|t: Seq<char>| has_text(before_next, t) <==> (has_text(before, t) && !has_text(round_names, t)));
                let nd = d + 1;
                proof {
                    assert(within(edges@, start@, e.from@, d as nat));
                    assert(within(edges@, start@, e.to@, d as nat + 1));
                    assert(!within(edges@, start@, e.to@, d as nat));
                }
                names.push(e.to.clone());
                dists.push(nd);
                next.push(e.to.clone());
                proof {
                    assert(names@[before.len() as int]@ == e.to@);
                    lemma_has_text_push(before, names@, e.to@);
                    lemma_has_text_push(before_next, next@, e.to@);
                    assert forall|i: int| 0 <= i < names@.len() implies distance_is(edges@, start@, (#[trigger] names@[i])@, dists@[i] as nat) by {
                        if i < before.len() {
                            assert(names@[i] == before[i]);
                        } else {
                            assert(dists@[i] == d + 1);
                        }
                    }
                    assert forall|t: Seq<char>| #[trigger] has_text(next@, t) <==> (has_text(names@, t) && !has_text(round_names, t)) by {
                        assert(has_text(next@, t) <==> (has_text(before_next, t) || t == e.to@));
                        assert(has_text(names@, t) <==> (has_text(before, t) || t == e.to@));
                    }
                    assert(!has_text(round_names, edge_target(edges@[k as int], true)));
                    assert(has_text(names@, edge_target(edges@[k as int], true)));
                }
            }
            proof {
                assert forall|j: int|
                    0 <= j < k + 1 && has_text(frontier@, (#[trigger] edges@[j]).from@) implies has_text(names@, edges@[j].to@) by {
                    if j == k && has_text(frontier@, edges@[j].from@) {
                        if !has_text(names@, edges@[j].to@) {
                            assert(in_frontier);
                        }
                    }
                }
            }
            k = k + 1;
        }
        proof {
            // every entity one step past the frontier is now listed
            assert forall|t: Seq<char>| has_text(names@, t) <==> within(edges@, start@, t, d as nat + 1) by {
                if within(edges@, start@, t, d as nat + 1) && !within(edges@, start@, t, d as nat) {
                    let j = choose|j: int|
                        0 <= j < edges@.len() && within(edges@, start@, (#[trigger] edges@[j]).from@, d as nat) && edges@[j].to@ == t;
                    let s = edges@[j].from@;
                    if d > 0 && within(edges@, start@, s, (d - 1) as nat) {
                        assert(within(edges@, start@, t, d as nat));
                    }
                    assert(has_text(frontier@, s));
                }
                if within(edges@, start@, t, d as nat) {
                    assert(has_text(round_names, t));
                }
            }
            assert forall|t: Seq<char>|
                has_text(next@, t) <==> (within(edges@, start@, t, d as nat + 1) && !within(edges@, start@, t, d as nat)) by {
                assert(#[trigger] has_text(next@, t) <==> (has_text(names@, t) && !has_text(round_names, t)));
                assert(has_text(names@, t) <==> within(edges@, start@, t, d as nat + 1));
                assert(has_text(round_names, t) <==> within(edges@, start@, t, d as nat));
            }
            if next@.len() > 0 {
                lemma_unvisited_shrinks(edges@, true, round_names, names@);
            } else {
                lemma_unvisited_shrinks(edges@, true, round_names, names@);
            }
        }
        if next.len() == 0 {
            proof {
                assert forall|t: Seq<char>| #[trigger] within(edges@, start@, t, d as nat + 1) implies within(edges@, start@, t, d as nat) by {
                    if !within(edges@, start@, t, d as nat) {
                        assert(has_text(names@, t));
                        assert(!has_text(round_names, t));
                        assert(has_text(next@, t));
                    }
                }
                assert forall|t: Seq<char>, n: nat| #[trigger] within(edges@, start@, t, n) implies has_text(names@, t) by {
                    if n <= d {
                        lemma_within_monotone(edges@, start@, t, n, d as nat);
                    } else {
                        lemma_within_stable(edges@, start@, d as nat, n);
                    }
                    assert(has_text(round_names, t));
                }
            }
            return (names, dists);
        }
        d = d + 1;
        frontier = next;
    }
    proof {
        assert(false);
    }
    (names, dists)
}


/// A relationship joins `a` and `b`, read either way.
pub open spec fn related(reg: EntityRegistry, a: Seq<char>, b: Seq<char>) -> bool {
    exists|j: int|
        0 <= j < reg.relationships@.len() && ((#[trigger] reg.relationships@[j]).from_id@ == a
            && reg.relationships@[j].to_id@ == b || reg.relationships@[j].to_id@ == a
            && reg.relationships@[j].from_id@ == b)
}

/// `b` is the parent or a child of the entity with id `a`.
pub open spec fn family(reg: EntityRegistry, a: Seq<char>, b: Seq<char>) -> bool {
    match entity_named(reg, a) {
        Some(e) => (match e.parent_id {
            Some(p) => p@ == b,
            None => false,
        }) || exists|c: int| 0 <= c < e.children_ids@.len() && (#[trigger] e.children_ids@[c])@ == b,
        None => false,
    }
}

/// One hop of the entity graph: a relationship either way, or a parent or
/// child link.
pub open spec fn linked(reg: EntityRegistry, a: Seq<char>, b: Seq<char>) -> bool {
    related(reg, a, b) || family(reg, a, b)
}

/// `b` can be reached from `a` by hops of the entity graph (`a` itself
/// included).
pub open spec fn connected(reg: EntityRegistry, a: Seq<char>, b: Seq<char>) -> bool {
    exists|p: Seq<Seq<char>>|
        p.len() >= 1 && p[0] == a && p.last() == b && forall|i: int|
            0 <= i < p.len() - 1 ==> linked(reg, #[trigger] p[i], p[i + 1])
}

/// Every edge of `edges` is a hop of the entity graph, and every hop is an
/// edge.
pub open spec fn spans_links(reg: EntityRegistry, edges: Seq<RecoveryGraphEdge>) -> bool {
    forall|a: Seq<char>, b: Seq<char>| #[trigger] step(edges, true, a, b) <==> linked(reg, a, b)
}

proof fn lemma_reaches_connected(reg: EntityRegistry, edges: Seq<RecoveryGraphEdge>, a: Seq<char>, b: Seq<char>)
    requires
        spans_links(reg, edges),
    ensures
        reaches(edges, true, a, b) <==> connected(reg, a, b),
{
    if reaches(edges, true, a, b) {
        let p = choose|p: Seq<Seq<char>>| #[trigger] is_walk(edges, true, p) && p[0] == a && p.last() == b;
        assert forall|i: int| 0 <= i < p.len() - 1 implies linked(reg, #[trigger] p[i], p[i + 1]) by {
            assert(step(edges, true, p[i], p[i + 1]));
        }
    }
    if connected(reg, a, b) {
        let p = choose|p: Seq<Seq<char>>|
            p.len() >= 1 && p[0] == a && p.last() == b && forall|i: int|
                0 <= i < p.len() - 1 ==> linked(reg, #[trigger] p[i], p[i + 1]);
        assert forall|i: int| 0 <= i < p.len() - 1 implies step(edges, true, #[trigger] p[i], p[i + 1]) by {
            assert(linked(reg, p[i], p[i + 1]));
        }
        assert(is_walk(edges, true, p));
    }
}

pub(crate) fn link(from: &str, to: &str) -> (e: RecoveryGraphEdge)
    ensures
        e.from@ == from@,
        e.to@ == to@,
{
    RecoveryGraphEdge { from: from.to_owned(), to: to.to_owned(), relationship: String::new(), critical: false }
}

/// The hops of the entity graph as edges.
fn link_edges(registry: &EntityRegistry) -> (r: Vec<RecoveryGraphEdge>)
    ensures
        spans_links(*registry, r@),
{
    let mut out: Vec<RecoveryGraphEdge> = Vec::new();
    let ghost reg = *registry;
    let rels = &registry.relationships;
    let mut j: usize = 0;
    while j < rels.len()
        invariant
            reg == *registry,
            rels == &registry.relationships,
            j <= rels.len(),
            forall|k: int| 0 <= k < out@.len() ==> linked(reg, (#[trigger] out@[k]).from@, out@[k].to@),
            forall|q: int| 0 <= q < j ==> step(out@, true, (#[trigger] rels@[q]).from_id@, rels@[q].to_id@)
                && step(out@, true, rels@[q].to_id@, rels@[q].from_id@),
        decreases rels.len() - j,
    {
        let ghost before = out@;
        let r = &rels[j];
        proof {
            assert(related(reg, r.from_id@, r.to_id@));
            assert(related(reg, r.to_id@, r.from_id@));
        }
        out.push(link(r.from_id.as_str(), r.to_id.as_str()));
        out.push(link(r.to_id.as_str(), r.from_id.as_str()));
        proof {
            assert forall|q: int| 0 <= q <= j implies step(out@, true, (#[trigger] rels@[q]).from_id@, rels@[q].to_id@)
                && step(out@, true, rels@[q].to_id@, rels@[q].from_id@) by {
                if q < j {
                    let k1 = choose|k: int| 0 <= k < before.len() && edge_source(#[trigger] before[k], true) == rels@[q].from_id@
                        && edge_target(before[k], true) == rels@[q].to_id@;
                    assert(out@[k1] == before[k1]);
                    let k2 = choose|k: int| 0 <= k < before.len() && edge_source(#[trigger] before[k], true) == rels@[q].to_id@
                        && edge_target(before[k], true) == rels@[q].from_id@;
                    assert(out@[k2] == before[k2]);
                } else {
                    assert(edge_source(out@[before.len() as int], true) == rels@[q].from_id@);
                    assert(edge_source(out@[before.len() as int + 1], true) == rels@[q].to_id@);
                }
            }
        }
        j = j + 1;
    }
    let ents = &registry.entities;
    let mut i: usize = 0;
    while i < ents.len()
        invariant
            reg == *registry,
            rels == &registry.relationships,
            ents == &registry.entities,
            i <= ents.len(),
            forall|k: int| 0 <= k < out@.len() ==> linked(reg, (#[trigger] out@[k]).from@, out@[k].to@),
            forall|q: int| 0 <= q < rels@.len() ==> step(out@, true, (#[trigger] rels@[q]).from_id@, rels@[q].to_id@)
                && step(out@, true, rels@[q].to_id@, rels@[q].from_id@),
            forall|q: int, b: Seq<char>| 0 <= q < i && #[trigger] family(reg, ents@[q].id@, b) ==> step(out@, true, ents@[q].id@, b),
        decreases ents.len() - i,
    {
        let id = ents[i].id.as_str();
        let ghost q0 = i as int;
        match get_named(registry, id) {
            Some(e) => {
                let ghost before = out@;
                match &e.parent_id {
                    Some(p) => {
                        out.push(link(id, p.as_str()));
                    },
                    None => {},
                }
                let ghost mid = out@;
                assert(mid.len() >= before.len());
                assert(forall|k: int| 0 <= k < before.len() ==> mid[k] == before[k]);
                let mut c: usize = 0;
                while c < e.children_ids.len()
                    invariant
                        c <= e.children_ids.len(),
                        out@.len() >= mid.len(),
                        forall|k: int| 0 <= k < mid.len() ==> out@[k] == mid[k],
                        forall|k: int| 0 <= k < out@.len() ==> linked(reg, (#[trigger] out@[k]).from@, out@[k].to@),
                        forall|x: int| 0 <= x < c ==> step(out@, true, id@, (#[trigger] e.children_ids@[x])@),
                        entity_named(reg, id@) == Some(*e),
                    decreases e.children_ids.len() - c,
                {
                    let ghost b2 = out@;
                    proof {
                        assert(family(reg, id@, e.children_ids@[c as int]@));
                    }
                    out.push(link(id, e.children_ids[c].as_str()));
                    proof {
                        assert forall|x: int| 0 <= x <= c implies step(out@, true, id@, (#[trigger] e.children_ids@[x])@) by {
                            if x < c {
                                let k = choose|k: int| 0 <= k < b2.len() && edge_source(#[trigger] b2[k], true) == id@
                                    && edge_target(b2[k], true) == e.children_ids@[x]@;
                                assert(out@[k] == b2[k]);
                            } else {
                                assert(edge_target(out@[b2.len() as int], true) == e.children_ids@[x]@);
                            }
                        }
                    }
                    c = c + 1;
                }
                proof {
                    assert forall|a: Seq<char>, b: Seq<char>| #[trigger] step(before, true, a, b) implies step(out@, true, a, b) by {
                        let k = choose|k: int| 0 <= k < before.len() && edge_source(#[trigger] before[k], true) == a
                            && edge_target(before[k], true) == b;
                        assert(mid[k] == before[k]);
                        assert(out@[k] == before[k]);
                    }
                    assert forall|q: int, b: Seq<char>|
                        0 <= q <= i && #[trigger] family(reg, ents@[q].id@, b) implies step(out@, true, ents@[q].id@, b) by {
                        if q < i {
                            assert(step(before, true, ents@[q].id@, b));
                        } else {
                            match e.parent_id {
                                Some(p) => {
                                    if p@ == b {
                                        assert(out@[before.len() as int] == mid[before.len() as int]);
                                        assert(edge_target(out@[before.len() as int], true) == b);
                                    }
                                },
                                None => {},
                            }
                        }
                    }
                }
            },
            None => {
                proof {
                    assert(entity_named(reg, ents@[q0].id@) is None);
                }
            },
        }
        i = i + 1;
    }
    proof {
        assert forall|a: Seq<char>, b: Seq<char>| #[trigger] step(out@, true, a, b) <==> linked(reg, a, b) by {
            if step(out@, true, a, b) {
                let k = choose|k: int| 0 <= k < out@.len() && edge_source(#[trigger] out@[k], true) == a && edge_target(out@[k], true) == b;
                assert(linked(reg, out@[k].from@, out@[k].to@));
            }
            if related(reg, a, b) {
                let q = choose|q: int|
                    0 <= q < reg.relationships@.len() && ((#[trigger] reg.relationships@[q]).from_id@ == a
                        && reg.relationships@[q].to_id@ == b || reg.relationships@[q].to_id@ == a
                        && reg.relationships@[q].from_id@ == b);
                assert(step(out@, true, rels@[q].from_id@, rels@[q].to_id@));
            }
            if family(reg, a, b) {
                let q = choose|q: int| first_id(reg.entities@, a, q);
                assert(family(reg, ents@[q].id@, b));
            }
        }
    }
    out
}

/// `b` is at most `n` relationship hops from `a`, each relationship read
/// either way.
pub open spec fn hops_within(reg: EntityRegistry, a: Seq<char>, b: Seq<char>, n: nat) -> bool
    decreases n,
{
    if n == 0 {
        a == b
    } else {
        hops_within(reg, a, b, (n - 1) as nat) || exists|j: int|
            0 <= j < reg.relationships@.len() && (hops_within(
                reg,
                a,
                (#[trigger] reg.relationships@[j]).from_id@,
                (n - 1) as nat,
            ) && reg.relationships@[j].to_id@ == b || hops_within(reg, a, reg.relationships@[j].to_id@, (n - 1) as nat)
                && reg.relationships@[j].from_id@ == b)
    }
}

/// `x` is the fewest relationship hops from `a` to `b`.
pub open spec fn hop_distance_is(reg: EntityRegistry, a: Seq<char>, b: Seq<char>, x: nat) -> bool {
    hops_within(reg, a, b, x) && (x == 0 || !hops_within(reg, a, b, (x - 1) as nat))
}

/// Each relationship as two edges, one each way: `r[2j]` runs along
/// relationship `j`, `r[2j + 1]` against it.
pub open spec fn hop_edges_of(reg: EntityRegistry, r: Seq<RecoveryGraphEdge>) -> bool {
    &&& r.len() == 2 * reg.relationships@.len()
    &&& forall|j: int|
        0 <= j < reg.relationships@.len() ==> r[2 * j].from@ == (#[trigger] reg.relationships@[j]).from_id@
            && r[2 * j].to@ == reg.relationships@[j].to_id@ && r[2 * j + 1].from@ == reg.relationships@[j].to_id@
            && r[2 * j + 1].to@ == reg.relationships@[j].from_id@
}

fn hop_edges(registry: &EntityRegistry) -> (r: Vec<RecoveryGraphEdge>)
    requires
        registry.relationships@.len() < 0x3fff_ffff,
    ensures
        hop_edges_of(*registry, r@),
{
    let mut out: Vec<RecoveryGraphEdge> = Vec::new();
    let rels = &registry.relationships;
    let mut j: usize = 0;
    while j < rels.len()
        invariant
            rels == &registry.relationships,
            j <= rels.len(),
            rels@.len() < 0x3fff_ffff,
            out@.len() == 2 * j,
            forall|q: int|
                0 <= q < j ==> out@[2 * q].from@ == (#[trigger] rels@[q]).from_id@ && out@[2 * q].to@
                    == rels@[q].to_id@ && out@[2 * q + 1].from@ == rels@[q].to_id@ && out@[2 * q + 1].to@
                    == rels@[q].from_id@,
        decreases rels.len() - j,
    {
        let ghost before = out@;
        let r = &rels[j];
        out.push(link(r.from_id.as_str(), r.to_id.as_str()));
        out.push(link(r.to_id.as_str(), r.from_id.as_str()));
        proof {
            assert forall|q: int|
                0 <= q <= j implies out@[2 * q].from@ == (#[trigger] rels@[q]).from_id@ && out@[2 * q].to@
                    == rels@[q].to_id@ && out@[2 * q + 1].from@ == rels@[q].to_id@ && out@[2 * q + 1].to@
                    == rels@[q].from_id@ by {
                if q < j {
                    assert(out@[2 * q] == before[2 * q]);
                    assert(out@[2 * q + 1] == before[2 * q + 1]);
                }
            }
        }
        j = j + 1;
    }
    out
}

proof fn lemma_hops_match(reg: EntityRegistry, d: Seq<RecoveryGraphEdge>, a: Seq<char>, n: nat)
    requires
        hop_edges_of(reg, d),
    ensures
        forall|t: Seq<char>| #[trigger] within(d, a, t, n) <==> hops_within(reg, a, t, n),
    decreases n,
{
    if n > 0 {
        let m = (n - 1) as nat;
        lemma_hops_match(reg, d, a, m);
        let rels = reg.relationships@;
        assert forall|t: Seq<char>| #[trigger] within(d, a, t, n) <==> hops_within(reg, a, t, n) by {
            assert(within(d, a, t, m) <==> hops_within(reg, a, t, m));
            if within(d, a, t, n) && !within(d, a, t, m) {
                let k = choose|k: int| 0 <= k < d.len() && within(d, a, (#[trigger] d[k]).from@, m) && d[k].to@ == t;
                let j = k / 2;
                assert(0 <= j < rels.len());
                assert(within(d, a, d[k].from@, m) == hops_within(reg, a, d[k].from@, m));
                if k == 2 * j {
                    assert(d[2 * j].from@ == rels[j].from_id@);
                } else {
                    assert(k == 2 * j + 1);
                    assert(d[2 * j + 1].from@ == rels[j].to_id@);
                }
                assert(hops_within(reg, a, t, n));
            }
            if hops_within(reg, a, t, n) && !hops_within(reg, a, t, m) {
                let j = choose|j: int|
                    0 <= j < rels.len() && (hops_within(reg, a, (#[trigger] rels[j]).from_id@, m) && rels[j].to_id@ == t
                        || hops_within(reg, a, rels[j].to_id@, m) && rels[j].from_id@ == t);
                assert(d[2 * j].from@ == rels[j].from_id@);
                if hops_within(reg, a, rels[j].from_id@, m) && rels[j].to_id@ == t {
                    assert(within(d, a, d[2 * j].from@, m));
                    assert(within(d, a, t, n));
                } else {
                    assert(within(d, a, d[2 * j + 1].from@, m));
                    assert(within(d, a, t, n));
                }
            }
        }
    }
}

/// Node in the recovery graph.
#[derive(Debug, Clone, PartialEq, Eq)]
pub struct RecoveryGraphNode {
    pub id: String,
    pub kind: EntityKind,
    pub display_name: String,
    pub recoverable: bool,
    pub health_status: String,
    pub depth: u32,
}

/// The name an entity is shown by: its display name, else its name, else
/// its id.
pub open spec fn display_name_of(e: EntityRecord) -> Seq<char> {
    match e.display_name {
        Some(d) => d@,
        None => match e.name {
            Some(n) => n@,
            None => e.id@,
        },
    }
}

/// Whether id `t` belongs to the graph: under a root, every id connected
/// to it; otherwise every listed entity.
pub open spec fn in_scope(reg: EntityRegistry, root_id: Option<&str>, t: Seq<char>) -> bool {
    match root_id {
        Some(r) => connected(reg, r@, t),
        None => exists|i: int| 0 <= i < reg.entities@.len() && (#[trigger] reg.entities@[i]).id@ == t,
    }
}

/// A node's depth: the fewest relationship hops from the root, or
/// `u32::MAX` where no hops reach it; 0 for every node without a root.
pub open spec fn depth_ok(reg: EntityRegistry, root_id: Option<&str>, id: Seq<char>, depth: u32) -> bool {
    match root_id {
        Some(r) => hop_distance_is(reg, r@, id, depth as nat) || (depth == u32::MAX && forall|n: nat|
            !#[trigger] hops_within(reg, r@, id, n)),
        None => depth == 0,
    }
}

/// The node describes the entity with its id.
pub open spec fn node_ok(reg: EntityRegistry, root_id: Option<&str>, n: RecoveryGraphNode) -> bool {
    match entity_named(reg, n.id@) {
        Some(e) => {
            &&& n.kind == e.entity_type
            &&& n.display_name@ == display_name_of(e)
            &&& n.recoverable == e.entity_type.spec_is_recoverable()
            &&& n.health_status@ == e.health_status.spec_debug_name()
            &&& depth_ok(reg, root_id, n.id@, n.depth)
        },
        None => false,
    }
}

/// Nodes are listed by depth, then by id.
pub open spec fn node_before(a: RecoveryGraphNode, b: RecoveryGraphNode) -> bool {
    a.depth < b.depth || (a.depth == b.depth && seq_lt(a.id@, b.id@))
}

pub open spec fn nodes_sorted(s: Seq<RecoveryGraphNode>) -> bool {
    forall|i: int, j: int| 0 <= i < j < s.len() ==> node_before(#[trigger] s[i], #[trigger] s[j])
}

/// Some node has id `t`.
pub open spec fn has_node(s: Seq<RecoveryGraphNode>, t: Seq<char>) -> bool {
    exists|i: int| 0 <= i < s.len() && (#[trigger] s[i]).id@ == t
}

proof fn lemma_node_before_transitive(a: RecoveryGraphNode, b: RecoveryGraphNode, c: RecoveryGraphNode)
    requires
        node_before(a, b),
        node_before(b, c),
    ensures
        node_before(a, c),
{
    if a.depth == b.depth && b.depth == c.depth {
        lemma_seq_lt_transitive(a.id@, b.id@, c.id@);
    }
}

fn insert_node(v: &mut Vec<RecoveryGraphNode>, x: RecoveryGraphNode)
    requires
        nodes_sorted(old(v)@),
    ensures
        nodes_sorted(final(v)@),
        forall|t: Seq<char>| has_node(final(v)@, t) <==> (has_node(old(v)@, t) || t == x.id@),
        forall|i: int|
            0 <= i < final(v)@.len() ==> #[trigger] final(v)@[i] == x || exists|j: int|
                0 <= j < old(v)@.len() && final(v)@[i] == old(v)@[j],
{
    let n = v.len();
    let mut p: usize = 0;
    while p < n
        invariant
            n == v.len(),
            v@ == old(v)@,
            p <= n,
            nodes_sorted(v@),
            forall|k: int| 0 <= k < p ==> node_before(#[trigger] v@[k], x),
        ensures
            p <= n,
            n == v.len(),
            v@ == old(v)@,
            nodes_sorted(v@),
            p < n ==> !node_before(v@[p as int], x),
            forall|k: int| 0 <= k < p ==> node_before(#[trigger] v@[k], x),
        decreases n - p,
    {
        let before = v[p].depth < x.depth || (v[p].depth == x.depth && str_lt(v[p].id.as_str(), x.id.as_str()));
        if !before {
            break;
        }
        p = p + 1;
    }
    if p < n && v[p].depth == x.depth && str_eq(v[p].id.as_str(), x.id.as_str()) {
        proof {
            assert forall|t: Seq<char>| has_node(v@, t) <==> (has_node(old(v)@, t) || t == x.id@) by {
                if t == x.id@ {
                    assert(v@[p as int].id@ == t);
                }
            }
            assert forall|i: int| 0 <= i < v@.len() implies #[trigger] v@[i] == x || exists|j: int|
                0 <= j < old(v)@.len() && v@[i] == old(v)@[j] by {
                assert(v@[i] == old(v)@[i]);
            }
        }
        return;
    }
    proof {
        if p < n {
            lemma_seq_lt_total(v@[p as int].id@, x.id@);
            assert(node_before(x, v@[p as int]));
            assert forall|k: int| p <= k < n implies node_before(x, #[trigger] v@[k]) by {
                if k > p {
                    lemma_node_before_transitive(x, v@[p as int], v@[k]);
                }
            }
        }
    }
    let ghost old_v = v@;
    let ghost xv = x;
    v.insert(p, x);
    proof {
        assert forall|i: int, j: int| 0 <= i < j < v@.len() implies node_before(#[trigger] v@[i], #[trigger] v@[j]) by {
            if i < p && j > p {
                lemma_node_before_transitive(v@[i], xv, v@[j]);
            }
        }
        assert forall|t: Seq<char>| has_node(v@, t) <==> (has_node(old_v, t) || t == xv.id@) by {
            if has_node(v@, t) {
                let i = choose|i: int| 0 <= i < v@.len() && (#[trigger] v@[i]).id@ == t;
                if i < p {
                    assert(old_v[i].id@ == t);
                } else if i > p {
                    assert(old_v[i - 1].id@ == t);
                }
            }
            if has_node(old_v, t) {
                let i = choose|i: int| 0 <= i < old_v.len() && (#[trigger] old_v[i]).id@ == t;
                if i < p {
                    assert(v@[i].id@ == t);
                } else {
                    assert(v@[i + 1].id@ == t);
                }
            }
            if t == xv.id@ {
                assert(v@[p as int].id@ == t);
            }
        }
        assert forall|i: int| 0 <= i < v@.len() implies #[trigger] v@[i] == xv || exists|j: int|
            0 <= j < old_v.len() && v@[i] == old_v[j] by {
            if i < p {
                assert(v@[i] == old_v[i]);
            } else if i > p {
                assert(v@[i] == old_v[i - 1]);
            }
        }
    }
}

/// An edge as plain values: from, to, relationship, critical.
pub open spec fn edge_view(e: RecoveryGraphEdge) -> (Seq<char>, Seq<char>, Seq<char>, bool) {
    (e.from@, e.to@, e.relationship@, e.critical)
}

pub open spec fn edge_views(s: Seq<RecoveryGraphEdge>) -> Seq<(Seq<char>, Seq<char>, Seq<char>, bool)> {
    s.map_values(|e: RecoveryGraphEdge| edge_view(e))
}

/// Relationships that a failure must propagate along.
pub open spec fn critical_kind(k: EntityRelationshipKind) -> bool {
    k is DependsOn || k is Controls
}

/// Relationships that recovery follows.
pub open spec fn recovery_kind(k: EntityRelationshipKind) -> bool {
    k is DependsOn || k is Consumes || k is Controls
}

/// Both ends of the relationship belong to the graph.
pub open spec fn rel_in_scope(reg: EntityRegistry, root_id: Option<&str>, r: EntityRelationship) -> bool {
    in_scope(reg, root_id, r.from_id@) && in_scope(reg, root_id, r.to_id@)
}

/// One dependency edge per relationship of the graph, in order.
pub open spec fn dependency_views(reg: EntityRegistry, root_id: Option<&str>, rels: Seq<EntityRelationship>) -> Seq<
    (Seq<char>, Seq<char>, Seq<char>, bool),
>
    decreases rels.len(),
{
    if rels.len() == 0 {
        Seq::empty()
    } else {
        let prev = dependency_views(reg, root_id, rels.drop_last());
        let r = rels.last();
        if rel_in_scope(reg, root_id, r) {
            prev.push((r.from_id@, r.to_id@, r.kind.spec_as_str(), critical_kind(r.kind)))
        } else {
            prev
        }
    }
}

/// One impact edge per relationship of the graph, reversed, in order.
pub open spec fn impact_views(reg: EntityRegistry, root_id: Option<&str>, rels: Seq<EntityRelationship>) -> Seq<
    (Seq<char>, Seq<char>, Seq<char>, bool),
>
    decreases rels.len(),
{
    if rels.len() == 0 {
        Seq::empty()
    } else {
        let prev = impact_views(reg, root_id, rels.drop_last());
        let r = rels.last();
        if rel_in_scope(reg, root_id, r) {
            prev.push((r.to_id@, r.from_id@, "impacts_"@ + r.kind.spec_as_str(), critical_kind(r.kind)))
        } else {
            prev
        }
    }
}

/// The dependency edges of the graph that recovery follows.
pub open spec fn recovery_views(reg: EntityRegistry, root_id: Option<&str>, rels: Seq<EntityRelationship>) -> Seq<
    (Seq<char>, Seq<char>, Seq<char>, bool),
>
    decreases rels.len(),
{
    if rels.len() == 0 {
        Seq::empty()
    } else {
        let prev = recovery_views(reg, root_id, rels.drop_last());
        let r = rels.last();
        if rel_in_scope(reg, root_id, r) && recovery_kind(r.kind) {
            prev.push((r.from_id@, r.to_id@, r.kind.spec_as_str(), critical_kind(r.kind)))
        } else {
            prev
        }
    }
}

/// For each node, in order, whose entity has a parent in the graph: the
/// child-to-parent dependency edge (`forward`) or the parent-to-child
/// impact edge.
pub open spec fn parent_views(reg: EntityRegistry, root_id: Option<&str>, nodes: Seq<RecoveryGraphNode>, forward: bool) -> Seq<
    (Seq<char>, Seq<char>, Seq<char>, bool),
>
    decreases nodes.len(),
{
    if nodes.len() == 0 {
        Seq::empty()
    } else {
        let prev = parent_views(reg, root_id, nodes.drop_last(), forward);
        let id = nodes.last().id@;
        match entity_named(reg, id) {
            Some(e) => match e.parent_id {
                Some(p) => if in_scope(reg, root_id, p@) {
                    if forward {
                        prev.push((id, p@, "child_of"@, false))
                    } else {
                        prev.push((p@, id, "parent_impact"@, true))
                    }
                } else {
                    prev
                },
                None => prev,
            },
            None => prev,
        }
    }
}

fn scope_ids(registry: &EntityRegistry, root_id: Option<&str>, links: &Vec<RecoveryGraphEdge>) -> (r: Vec<String>)
    requires
        spans_links(*registry, links@),
    ensures
        forall|t: Seq<char>| has_text(r@, t) <==> in_scope(*registry, root_id, t),
{
    match root_id {
        Some(root) => {
            let v = reachable_from(links, root, true);
            proof {
                assert forall|t: Seq<char>| has_text(v@, t) <==> in_scope(*registry, root_id, t) by {
                    lemma_reaches_connected(*registry, links@, root@, t);
                }
            }
            v
        },
        None => {
            let mut v: Vec<String> = Vec::new();
            let ents = &registry.entities;
            let mut i: usize = 0;
            while i < ents.len()
                invariant
                    ents == &registry.entities,
                    i <= ents.len(),
                    v@.len() == i,
                    forall|k: int| 0 <= k < i ==> (#[trigger] v@[k])@ == ents@[k].id@,
                decreases ents.len() - i,
            {
                v.push(ents[i].id.clone());
                i = i + 1;
            }
            proof {
                assert forall|t: Seq<char>| has_text(v@, t) <==> in_scope(*registry, root_id, t) by {
                    if has_text(v@, t) {
                        let k = choose|k: int| 0 <= k < v@.len() && #[trigger] v@[k]@ == t;
                        assert(ents@[k].id@ == t);
                    }
                    if in_scope(*registry, root_id, t) {
                        let k = choose|k: int| 0 <= k < ents@.len() && (#[trigger] ents@[k]).id@ == t;
                        assert(v@[k]@ == t);
                    }
                }
            }
            v
        },
    }
}

fn depth_of(
    registry: &EntityRegistry,
    root_id: Option<&str>,
    hops: &Vec<RecoveryGraphEdge>,
    names: &Vec<String>,
    dists: &Vec<u32>,
    id: &str,
) -> (d: u32)
    requires
        hop_edges_of(*registry, hops@),
        names@.len() == dists@.len(),
        match root_id {
            Some(r) => (forall|i: int|
                0 <= i < names@.len() ==> distance_is(hops@, r@, (#[trigger] names@[i])@, dists@[i] as nat))
                && forall|t: Seq<char>, n: nat| #[trigger] within(hops@, r@, t, n) ==> has_text(names@, t),
            None => true,
        },
    ensures
        depth_ok(*registry, root_id, id@, d),
{
    match root_id {
        None => 0,
        Some(r) => match find_text(names, id) {
            Some(i) => {
                let d = dists[i];
                proof {
                    assert(distance_is(hops@, r@, names@[i as int]@, dists@[i as int] as nat));
                    lemma_hops_match(*registry, hops@, r@, d as nat);
                    if d > 0 {
                        lemma_hops_match(*registry, hops@, r@, (d - 1) as nat);
                    }
                }
                d
            },
            None => {
                proof {
                    assert forall|n: nat| !#[trigger] hops_within(*registry, r@, id@, n) by {
                        lemma_hops_match(*registry, hops@, r@, n);
                        if within(hops@, r@, id@, n) {
                            assert(has_text(names@, id@));
                        }
                    }
                }
                u32::MAX
            },
        },
    }
}

fn display_name_for(e: &EntityRecord) -> (r: String)
    ensures
        r@ == display_name_of(*e),
{
    match &e.display_name {
        Some(d) => d.clone(),
        None => match &e.name {
            Some(n) => n.clone(),
            None => e.id.clone(),
        },
    }
}

/// The recovery graph of the registry, or of the part connected to the
/// root: its nodes, by depth and then id, one per entity in scope; the
/// dependency and impact edges of its relationships and parent links; and
/// the edges recovery follows.
pub open spec fn graph_of(reg: EntityRegistry, root_id: Option<&str>, g: RecoveryGraph) -> bool {
    &&& nodes_sorted(g.nodes@)
    &&& forall|i: int| 0 <= i < g.nodes@.len() ==> node_ok(reg, root_id, #[trigger] g.nodes@[i])
    &&& forall|t: Seq<char>| has_node(g.nodes@, t) <==> (in_scope(reg, root_id, t) && entity_named(reg, t) is Some)
    &&& edge_views(g.dependency_edges@) == dependency_views(reg, root_id, reg.relationships@) + parent_views(
        reg,
        root_id,
        g.nodes@,
        true,
    )
    &&& edge_views(g.impact_edges@) == impact_views(reg, root_id, reg.relationships@) + parent_views(
        reg,
        root_id,
        g.nodes@,
        false,
    )
    &&& edge_views(g.recovery_edges@) == recovery_views(reg, root_id, reg.relationships@)
    &&& opt_text(g.root_entity_id) == match root_id {
        Some(r) => Some(r@),
        None => None::<Seq<char>>,
    }
}

/// The recovery graph of the registry, or of the part connected to
/// `root_id`: its nodes, by depth and then id, the dependency and impact
/// edges of its relationships and parent links, and the edges recovery
/// follows.
pub fn build_recovery_graph(registry: &EntityRegistry, root_id: Option<&str>) -> (g: RecoveryGraph)
    requires
        registry.relationships@.len() < 0x3fff_ffff,
    ensures
        graph_of(*registry, root_id, g),
{
    let ghost reg = *registry;
    let links = link_edges(registry);
    let scope = scope_ids(registry, root_id, &links);
    let hops = hop_edges(registry);
    let (names, dists) = match root_id {
        Some(r) => distances_from(&hops, r),
        None => (Vec::new(), Vec::new()),
    };
    let mut nodes: Vec<RecoveryGraphNode> = Vec::new();
    let mut k: usize = 0;
    while k < scope.len()
        invariant
            reg == *registry,
            k <= scope.len(),
            hop_edges_of(reg, hops@),
            names@.len() == dists@.len(),
            match root_id {
                Some(r) => (forall|i: int|
                    0 <= i < names@.len() ==> distance_is(hops@, r@, (#[trigger] names@[i])@, dists@[i] as nat))
                    && forall|t: Seq<char>, n: nat| #[trigger] within(hops@, r@, t, n) ==> has_text(names@, t),
                None => true,
            },
            nodes_sorted(nodes@),
            forall|i: int| 0 <= i < nodes@.len() ==> node_ok(reg, root_id, #[trigger] nodes@[i]),
            forall|t: Seq<char>|
                has_node(nodes@, t) <==> (has_text(scope@.take(k as int), t) && entity_named(reg, t) is Some),
        decreases scope.len() - k,
    {
        let ghost before = nodes@;
        let id = scope[k].as_str();
        match get_named(registry, id) {
            Some(e) => {
                let d = depth_of(registry, root_id, &hops, &names, &dists, id);
                let node = RecoveryGraphNode {
                    id: e.id.clone(),
                    kind: e.entity_type,
                    display_name: display_name_for(e),
                    recoverable: e.entity_type.is_recoverable(),
                    health_status: e.health_status.debug_name().to_owned(),
                    depth: d,
                };
                proof {
                    let q = choose|q: int| first_id(reg.entities@, id@, q);
                    assert(e.id@ == id@);
                    assert(node_ok(reg, root_id, node));
                }
                let ghost nv = node;
                insert_node(&mut nodes, node);
                proof {
                    assert forall|i: int| 0 <= i < nodes@.len() implies node_ok(reg, root_id, #[trigger] nodes@[i]) by {
                        if nodes@[i] != nv {
                            let j = choose|j: int| 0 <= j < before.len() && nodes@[i] == before[j];
                            assert(node_ok(reg, root_id, before[j]));
                        }
                    }
                }
            },
            None => {},
        }
        proof {
            let a = scope@.take(k as int);
            let b = scope@.take(k + 1);
            assert(b =~= a.push(scope@[k as int]));
            lemma_has_text_push(a, b, id@);
        }
        k = k + 1;
    }
    assert(scope@.take(scope@.len() as int) =~= scope@);
    let rels = &registry.relationships;
    let mut dep: Vec<RecoveryGraphEdge> = Vec::new();
    let mut imp: Vec<RecoveryGraphEdge> = Vec::new();
    let mut rec: Vec<RecoveryGraphEdge> = Vec::new();
    let mut j: usize = 0;
    while j < rels.len()
        invariant
            reg == *registry,
            rels == &registry.relationships,
            j <= rels.len(),
            forall|t: Seq<char>| has_text(scope@, t) <==> in_scope(reg, root_id, t),
            edge_views(dep@) == dependency_views(reg, root_id, rels@.take(j as int)),
            edge_views(imp@) == impact_views(reg, root_id, rels@.take(j as int)),
            edge_views(rec@) == recovery_views(reg, root_id, rels@.take(j as int)),
        decreases rels.len() - j,
    {
        let ghost (d0, i0, r0) = (dep@, imp@, rec@);
        let r = &rels[j];
        proof {
            assert(rels@.take(j + 1).drop_last() =~= rels@.take(j as int));
            assert(rels@.take(j + 1).last() == rels@[j as int]);
        }
        if contains_text(&scope, r.from_id.as_str()) && contains_text(&scope, r.to_id.as_str()) {
            let kind = r.kind.as_str();
            let critical = match r.kind {
                EntityRelationshipKind::DependsOn | EntityRelationshipKind::Controls => true,
                _ => false,
            };
            let follows = match r.kind {
                EntityRelationshipKind::DependsOn | EntityRelationshipKind::Consumes | EntityRelationshipKind::Controls => true,
                _ => false,
            };
            let de = RecoveryGraphEdge { from: r.from_id.clone(), to: r.to_id.clone(), relationship: kind.to_owned(), critical };
            let ie = RecoveryGraphEdge {
                from: r.to_id.clone(),
                to: r.from_id.clone(),
                relationship: concat2("impacts_", kind),
                critical,
            };
            if follows {
                let re = RecoveryGraphEdge { from: r.from_id.clone(), to: r.to_id.clone(), relationship: kind.to_owned(), critical };
                rec.push(re);
                assert(edge_views(rec@) =~= edge_views(r0).push(edge_view(rec@[rec@.len() - 1])));
            }
            dep.push(de);
            imp.push(ie);
            assert(edge_views(dep@) =~= edge_views(d0).push(edge_view(dep@[dep@.len() - 1])));
            assert(edge_views(imp@) =~= edge_views(i0).push(edge_view(imp@[imp@.len() - 1])));
        }
        j = j + 1;
    }
    assert(rels@.take(rels@.len() as int) =~= rels@);
    let mut k: usize = 0;
    while k < nodes.len()
        invariant
            reg == *registry,
            rels == &registry.relationships,
            k <= nodes.len(),
            forall|t: Seq<char>| has_text(scope@, t) <==> in_scope(reg, root_id, t),
            edge_views(dep@) == dependency_views(reg, root_id, rels@) + parent_views(reg, root_id, nodes@.take(k as int), true),
            edge_views(imp@) == impact_views(reg, root_id, rels@) + parent_views(reg, root_id, nodes@.take(k as int), false),
        decreases nodes.len() - k,
    {
        let ghost (d0, i0) = (dep@, imp@);
        let nd = &nodes[k];
        proof {
            assert(nodes@.take(k + 1).drop_last() =~= nodes@.take(k as int));
            assert(nodes@.take(k + 1).last() == nodes@[k as int]);
        }
        match get_named(registry, nd.id.as_str()) {
            Some(e) => match &e.parent_id {
                Some(p) => {
                    if contains_text(&scope, p.as_str()) {
                        dep.push(RecoveryGraphEdge { from: nd.id.clone(), to: p.clone(), relationship: "child_of".to_owned(), critical: false });
                        imp.push(RecoveryGraphEdge { from: p.clone(), to: nd.id.clone(), relationship: "parent_impact".to_owned(), critical: true });
                        assert(edge_views(dep@) =~= edge_views(d0).push(edge_view(dep@[dep@.len() - 1])));
                        assert(edge_views(imp@) =~= edge_views(i0).push(edge_view(imp@[imp@.len() - 1])));
                    }
                },
                None => {},
            },
            None => {},
        }
        k = k + 1;
    }
    assert(nodes@.take(nodes@.len() as int) =~= nodes@);
    let root = match root_id {
        Some(r) => Some(r.to_owned()),
        None => None,
    };
    RecoveryGraph { nodes, dependency_edges: dep, impact_edges: imp, recovery_edges: rec, root_entity_id: root }
}

/// Entity target for universal recovery APIs.
#[derive(Debug, Clone, PartialEq, Eq)]
pub struct RecoveryEntityTarget {
    pub id: String,
    pub kind: EntityKind,
    pub display_name: String,
}

impl RecoveryEntityTarget {
    /// The target that names an entity.
    pub fn from_record(e: &EntityRecord) -> (r: RecoveryEntityTarget)
        ensures
            r.id@ == e.id@,
            r.kind == e.entity_type,
            r.display_name@ == display_name_of(*e),
    {
        RecoveryEntityTarget { id: e.id.clone(), kind: e.entity_type, display_name: display_name_for(e) }
    }
}

/// The recoverable entities, in listing order, as (id, kind, display name).
pub open spec fn recoverable_views(es: Seq<EntityRecord>) -> Seq<(Seq<char>, EntityKind, Seq<char>)>
    decreases es.len(),
{
    if es.len() == 0 {
        Seq::empty()
    } else {
        let prev = recoverable_views(es.drop_last());
        let e = es.last();
        if e.entity_type.spec_is_recoverable() {
            prev.push((e.id@, e.entity_type, display_name_of(e)))
        } else {
            prev
        }
    }
}

pub open spec fn target_views(ts: Seq<RecoveryEntityTarget>) -> Seq<(Seq<char>, EntityKind, Seq<char>)> {
    ts.map_values(|t: RecoveryEntityTarget| (t.id@, t.kind, t.display_name@))
}

/// Every entity that can be recovered (all but incidents and hazards), in
/// listing order.
pub fn list_recoverable_entities(registry: &EntityRegistry) -> (r: Vec<RecoveryEntityTarget>)
    ensures
        target_views(r@) == recoverable_views(registry.entities@),
{
    let ents = registry.list();
    let mut out: Vec<RecoveryEntityTarget> = Vec::new();
    let mut i: usize = 0;
    while i < ents.len()
        invariant
            ents@ == registry.entities@,
            i <= ents.len(),
            target_views(out@) == recoverable_views(ents@.take(i as int)),
        decreases ents.len() - i,
    {
        let ghost before = out@;
        proof {
            assert(ents@.take(i + 1).drop_last() =~= ents@.take(i as int));
        }
        if ents[i].entity_type.is_recoverable() {
            out.push(RecoveryEntityTarget::from_record(&ents[i]));
            assert(target_views(out@) =~= target_views(before).push(
                (out@[out@.len() - 1].id@, out@[out@.len() - 1].kind, out@[out@.len() - 1].display_name@),
            ));
        }
        i = i + 1;
    }
    assert(ents@.take(ents@.len() as int) =~= ents@);
    out
}

/// Two edge lists run between the same entities in opposite directions,
/// pair by pair.
pub open spec fn mirrored(
    a: Seq<(Seq<char>, Seq<char>, Seq<char>, bool)>,
    b: Seq<(Seq<char>, Seq<char>, Seq<char>, bool)>,
) -> bool {
    a.len() == b.len() && forall|i: int| 0 <= i < a.len() ==> (#[trigger] a[i]).0 == b[i].1 && a[i].1 == b[i].0
}

proof fn lemma_mirrored_concat(
    a: Seq<(Seq<char>, Seq<char>, Seq<char>, bool)>,
    b: Seq<(Seq<char>, Seq<char>, Seq<char>, bool)>,
    c: Seq<(Seq<char>, Seq<char>, Seq<char>, bool)>,
    d: Seq<(Seq<char>, Seq<char>, Seq<char>, bool)>,
)
    requires
        mirrored(a, b),
        mirrored(c, d),
    ensures
        mirrored(a + c, b + d),
{
    assert forall|i: int| 0 <= i < (a + c).len() implies (#[trigger] (a + c)[i]).0 == (b + d)[i].1 && (a + c)[i].1 == (b + d)[i].0 by {
        if i < a.len() {
            assert((a + c)[i] == a[i] && (b + d)[i] == b[i]);
        } else {
            assert((a + c)[i] == c[i - a.len()] && (b + d)[i] == d[i - a.len()]);
        }
    }
}

proof fn lemma_rel_views_mirrored(reg: EntityRegistry, root_id: Option<&str>, rels: Seq<EntityRelationship>)
    ensures
        mirrored(dependency_views(reg, root_id, rels), impact_views(reg, root_id, rels)),
    decreases rels.len(),
{
    if rels.len() > 0 {
        lemma_rel_views_mirrored(reg, root_id, rels.drop_last());
    }
}

proof fn lemma_parent_views_mirrored(reg: EntityRegistry, root_id: Option<&str>, nodes: Seq<RecoveryGraphNode>)
    ensures
        mirrored(parent_views(reg, root_id, nodes, true), parent_views(reg, root_id, nodes, false)),
    decreases nodes.len(),
{
    if nodes.len() > 0 {
        lemma_parent_views_mirrored(reg, root_id, nodes.drop_last());
    }
}

/// Every impact edge is the dependency edge at the same position, read the
/// other way: what depends on a failed entity is what its failure impacts.
pub proof fn law_impact_mirrors_dependency(reg: EntityRegistry, root_id: Option<&str>, g: RecoveryGraph)
    requires
        graph_of(reg, root_id, g),
    ensures
        mirrored(edge_views(g.dependency_edges@), edge_views(g.impact_edges@)),
{
    lemma_rel_views_mirrored(reg, root_id, reg.relationships@);
    lemma_parent_views_mirrored(reg, root_id, g.nodes@);
    lemma_mirrored_concat(
        dependency_views(reg, root_id, reg.relationships@),
        impact_views(reg, root_id, reg.relationships@),
        parent_views(reg, root_id, g.nodes@, true),
        parent_views(reg, root_id, g.nodes@, false),
    );
}

/// Without a root every entity is a node at depth 0; under a root that is
/// an entity, the root is a node at depth 0.
pub proof fn law_root_is_shallowest(reg: EntityRegistry, root_id: Option<&str>, g: RecoveryGraph)
    requires
        graph_of(reg, root_id, g),
    ensures
        forall|i: int| 0 <= i < g.nodes@.len() && root_id is None ==> (#[trigger] g.nodes@[i]).depth == 0,
        match root_id {
            Some(r) => entity_named(reg, r@) is Some ==> exists|i: int|
                0 <= i < g.nodes@.len() && (#[trigger] g.nodes@[i]).id@ == r@ && g.nodes@[i].depth == 0,
            None => true,
        },
{
    match root_id {
        Some(r) => {
            if entity_named(reg, r@) is Some {
                let p = seq![r@];
                assert(p.len() >= 1 && p[0] == r@ && p.last() == r@);
                assert(forall|i: int| 0 <= i < p.len() - 1 ==> linked(reg, #[trigger] p[i], p[i + 1]));
                assert(connected(reg, r@, r@));
                assert(in_scope(reg, root_id, r@));
                assert(has_node(g.nodes@, r@));
                let i = choose|i: int| 0 <= i < g.nodes@.len() && (#[trigger] g.nodes@[i]).id@ == r@;
                assert(node_ok(reg, root_id, g.nodes@[i]));
                assert(hops_within(reg, r@, r@, 0));
                let d = g.nodes@[i].depth;
                if d != 0 {
                    if hop_distance_is(reg, r@, r@, d as nat) {
                        lemma_hops_monotone(reg, r@, r@, 0, (d - 1) as nat);
                    }
                }
            }
        },
        None => {
            assert forall|i: int| 0 <= i < g.nodes@.len() implies (#[trigger] g.nodes@[i]).depth == 0 by {
                assert(node_ok(reg, root_id, g.nodes@[i]));
            }
        },
    }
}

proof fn lemma_hops_monotone(reg: EntityRegistry, a: Seq<char>, b: Seq<char>, n: nat, m: nat)
    requires
        n <= m,
        hops_within(reg, a, b, n),
    ensures
        hops_within(reg, a, b, m),
    decreases m - n,
{
    if n < m {
        lemma_hops_monotone(reg, a, b, n, (m - 1) as nat);
    }
}
} // verus!
