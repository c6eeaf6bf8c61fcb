//! Route discovery: depth-first enumeration of the simple paths whose links
//! all carry a given route name.
use std::collections::HashSet;
use vstd::prelude::*;

use crate::graph::{
    edge_weight, graph_edges, graph_nodes, graph_out_edges, node_count, outgoing_edges, Hop, RouteGraph,
};
use crate::visit::{index_space, lemma_visit_shrinks, unvisited_below};

verus! {

broadcast use {vstd::std_specs::hash::group_hash_axioms, lemma_visit_shrinks};

/// The route name being searched for, if any.
pub open spec fn tag_view(desired_route: Option<&str>) -> Option<Seq<char>> {
    match desired_route {
        Some(s) => Some(s@),
        None => None,
    }
}

/// Edge `e` may be taken from a node whose search has `visited` marked:
/// its target is unvisited, and a route name is given that the edge carries.
pub open spec fn followable(g: RouteGraph, e: usize, visited: Set<usize>, tag: Option<Seq<char>>) -> bool {
    &&& !visited.contains(graph_edges(g)[e as int].1)
    &&& match tag {
        Some(t) => graph_edges(g)[e as int].2.has_route(t),
        None => false,
    }
}

/// No edge of `outs` may be taken.
pub open spec fn dead_end(g: RouteGraph, outs: Seq<usize>, visited: Set<usize>, tag: Option<Seq<char>>) -> bool {
    forall|j: int| 0 <= j < outs.len() ==> !followable(g, #[trigger] outs[j], visited, tag)
}

/// The routes recorded by a search at `cur`, reached along `path` with
/// `visited` marked: the goal ends a route; otherwise the search goes on
/// through each outgoing edge in turn and, when no goal is given, a non-empty
/// path that can go no further is recorded as it stands.
pub open spec fn search(
    g: RouteGraph,
    cur: usize,
    goal: Option<usize>,
    tag: Option<Seq<char>>,
    path: Seq<Hop>,
    visited: Set<usize>,
) -> Seq<Seq<Hop>>
    decreases unvisited_below(visited.insert(cur), index_space()), 1nat, 0nat,
{
    if goal == Some(cur) {
        seq![path]
    } else {
        let marked = visited.insert(cur);
        let outs = graph_out_edges(g)[cur as int];
        explore(g, cur, goal, tag, path, marked, outs, 0) + if goal.is_none() && path.len() > 0
            && dead_end(g, outs, marked, tag) {
            seq![path]
        } else {
            Seq::empty()
        }
    }
}

/// The routes recorded through the edges `outs[i..]` of `cur`.
pub open spec fn explore(
    g: RouteGraph,
    cur: usize,
    goal: Option<usize>,
    tag: Option<Seq<char>>,
    path: Seq<Hop>,
    marked: Set<usize>,
    outs: Seq<usize>,
    i: nat,
) -> Seq<Seq<Hop>>
    decreases unvisited_below(marked, index_space()), 0nat, outs.len() - i,
{
    if i >= outs.len() {
        Seq::empty()
    } else {
        let e = outs[i as int];
        let t = graph_edges(g)[e as int].1;
        let here = if followable(g, e, marked, tag) {
            search(g, t, goal, tag, path.push((cur, t, e)), marked)
        } else {
            Seq::empty()
        };
        here + explore(g, cur, goal, tag, path, marked, outs, i + 1)
    }
}

/// The routes of a collection, each as a sequence of hops.
pub open spec fn routes_view(routes: Seq<Vec<Hop>>) -> Seq<Seq<Hop>> {
    routes.map_values(|r: Vec<Hop>| r@)
}

/// Depth-first search from `current` for the routes whose links all carry
/// `desired_route`, ending at `goal` when one is given. Each route found is
/// appended to `all_routes`, in the order `search` gives; `path` is the hop
/// sequence that led to `current` and comes back unchanged, and `visited`
/// comes back with `current` unmarked (untouched when `current` is the goal).
pub fn find_all_routes(
    graph: &RouteGraph,
    current: usize,
    goal: Option<usize>,
    desired_route: Option<&str>,
    path: &mut Vec<Hop>,
    all_routes: &mut Vec<Vec<Hop>>,
    visited: &mut HashSet<usize>,
)
    requires
        current < graph_nodes(*graph).len(),
    ensures
        final(path)@ == old(path)@,
        final(visited)@ == if goal == Some(current) {
            old(visited)@
        } else {
            old(visited)@.remove(current)
        },
        routes_view(final(all_routes)@) == routes_view(old(all_routes)@) + search(
            *graph,
            current,
            goal,
            tag_view(desired_route),
            old(path)@,
            old(visited)@,
        ),
    decreases unvisited_below(old(visited)@.insert(current), index_space()),
{
    let ghost tag = tag_view(desired_route);
    if let Some(goal_node) = goal {
        if current == goal_node {
            let found = copy_path(path);
            all_routes.push(found);
            assert(routes_view(all_routes@) =~= routes_view(old(all_routes)@) + seq![path@]);
            return;
        }
    }
    let desired: Option<String> = match desired_route {
        Some(d) => Some(d.to_string()),
        None => None,
    };
    visited.insert(current);
    let ghost marked = visited@;
    let outs = outgoing_edges(graph, current);
    let ghost outs_spec = graph_out_edges(*graph)[current as int];
    let ghost before = routes_view(all_routes@);
    let mut took_edge = false;
    let mut i: usize = 0;
    while i < outs.len()
        invariant
            0 <= i <= outs@.len(),
            current < graph_nodes(*graph).len(),
            outs@.len() == outs_spec.len(),
            forall|k: int|
                0 <= k < outs@.len() ==> {
                    let e = (#[trigger] outs@[k]).0;
                    &&& e == outs_spec[k]
                    &&& e < graph_edges(*graph).len()
                    &&& graph_edges(*graph)[e as int].0 == current
                    &&& graph_edges(*graph)[e as int].1 == outs@[k].1
                    &&& outs@[k].1 < graph_nodes(*graph).len()
                },
            marked == old(visited)@.insert(current),
            visited@ == marked,
            path@ == old(path)@,
            tag == tag_view(desired_route),
            match desired {
                Some(d) => tag == Some(d@),
                None => tag.is_none(),
            },
            routes_view(all_routes@) + explore(*graph, current, goal, tag, path@, marked, outs_spec, i as nat)
                == before + explore(*graph, current, goal, tag, path@, marked, outs_spec, 0),
            took_edge <==> exists|k: int| 0 <= k < i && followable(*graph, #[trigger] outs_spec[k], marked, tag),
        decreases outs@.len() - i,
    {
        let (e, target) = outs[i];
        let ghost rest = explore(*graph, current, goal, tag, path@, marked, outs_spec, (i + 1) as nat);
        let ghost at_start = routes_view(all_routes@);
        let follow = if visited.contains(&target) {
            false
        } else {
            match &desired {
                Some(d) => edge_weight(graph, e).carries_route(d),
                None => false,
            }
        };
        assert(follow == followable(*graph, outs_spec[i as int], marked, tag));
        if follow {
            path.push((current, target, e));
            find_all_routes(graph, target, goal, desired_route, path, all_routes, visited);
            path.pop();
            assert(path@ =~= old(path)@);
            assert(visited@ =~= marked);
            took_edge = true;
        }
        assert(routes_view(all_routes@) + rest =~= at_start + explore(*graph, current, goal, tag, path@, marked, outs_spec, i as nat));
        i = i + 1;
    }
    let ghost explored = routes_view(all_routes@);
    if goal.is_none() && path.len() > 0 && !took_edge {
        let found = copy_path(path);
        all_routes.push(found);
        assert(routes_view(all_routes@) =~= explored + seq![path@]);
    }
    visited.remove(&current);
    assert(visited@ =~= old(visited)@.remove(current));
}

/// Why a route query was refused.
#[derive(Debug, Clone, Copy, PartialEq, Eq, Structural)]
pub enum RouteError {
    /// Nothing bounds the search: no start, no goal and no route name.
    InvalidQuery,
    /// A start or goal names no node of the graph.
    UnknownNode,
}

/// The routes found by searching from each of the nodes `0..k` in turn,
/// each time with a fresh path and nothing visited.
pub open spec fn routes_from_roots(
    g: RouteGraph,
    goal: Option<usize>,
    tag: Option<Seq<char>>,
    k: nat,
) -> Seq<Seq<Hop>>
    decreases k,
{
    if k == 0 {
        Seq::empty()
    } else {
        routes_from_roots(g, goal, tag, (k - 1) as nat) + search(
            g,
            (k - 1) as usize,
            goal,
            tag,
            Seq::empty(),
            Set::empty(),
        )
    }
}

/// The route name a query string stands for: none when it is empty.
pub open spec fn query_tag(route_tag: Seq<char>) -> Option<Seq<char>> {
    if route_tag.len() == 0 {
        None
    } else {
        Some(route_tag)
    }
}

/// Appends to `all_routes` the routes named `desired_route` found from every
/// node of the graph, in node order. An empty route name leaves nothing to
/// bound the search and is refused.
pub fn find_all_routes_from_anywhere(
    graph: &RouteGraph,
    desired_route: &str,
    all_routes: &mut Vec<Vec<Hop>>,
) -> (r: Result<(), RouteError>)
    ensures
        desired_route@.len() == 0 ==> r == Err::<(), RouteError>(RouteError::InvalidQuery)
            && final(all_routes)@ == old(all_routes)@,
        desired_route@.len() > 0 ==> r is Ok && routes_view(final(all_routes)@) == routes_view(
            old(all_routes)@,
        ) + routes_from_roots(*graph, None, Some(desired_route@), graph_nodes(*graph).len()),
{
    if desired_route.is_empty() {
        return Err(RouteError::InvalidQuery);
    }
    let n = node_count(graph);
    let ghost before = routes_view(all_routes@);
    let mut node: usize = 0;
    while node < n
        invariant
            0 <= node <= n,
            n == graph_nodes(*graph).len(),
            routes_view(all_routes@) == before + routes_from_roots(*graph, None, Some(desired_route@), node as nat),
        decreases n - node,
    {
        let mut visited: HashSet<usize> = HashSet::new();
        let mut path: Vec<Hop> = Vec::new();
        assert(visited@ =~= Set::<usize>::empty());
        find_all_routes(graph, node, None, Some(desired_route), &mut path, all_routes, &mut visited);
        assert(routes_view(all_routes@) =~= before + routes_from_roots(*graph, None, Some(desired_route@), (node + 1) as nat));
        node = node + 1;
    }
    Ok(())
}

/// Answers a route query. A start or goal outside the graph is an unknown
/// node; with neither start nor goal, an empty route name leaves nothing to
/// bound the search. Otherwise the search runs from the start, or from every
/// node in turn when none is given, and an empty route name follows no link.
pub fn find_routes(
    graph: &RouteGraph,
    start: Option<usize>,
    goal: Option<usize>,
    route_tag: &str,
) -> (r: Result<Vec<Vec<Hop>>, RouteError>)
    ensures
        ({
            let n = graph_nodes(*graph).len();
            let unknown = (start is Some && start->0 >= n) || (goal is Some && goal->0 >= n);
            let tag = query_tag(route_tag@);
            &&& unknown ==> r == Err::<Vec<Vec<Hop>>, RouteError>(RouteError::UnknownNode)
            &&& (!unknown && start is None && goal is None && tag is None) ==> r == Err::<
                Vec<Vec<Hop>>,
                RouteError,
            >(RouteError::InvalidQuery)
            &&& (!unknown && start is Some) ==> r is Ok && routes_view(r->Ok_0@) == search(
                *graph,
                start->0,
                goal,
                tag,
                Seq::empty(),
                Set::empty(),
            )
            &&& (!unknown && start is None && (goal is Some || tag is Some)) ==> r is Ok
                && routes_view(r->Ok_0@) == routes_from_roots(*graph, goal, tag, n)
        }),
{
    let n = node_count(graph);
    if let Some(s) = start {
        if s >= n {
            return Err(RouteError::UnknownNode);
        }
    }
    if let Some(gl) = goal {
        if gl >= n {
            return Err(RouteError::UnknownNode);
        }
    }
    let desired: Option<&str> = if route_tag.is_empty() {
        None
    } else {
        Some(route_tag)
    };
    assert(tag_view(desired) == query_tag(route_tag@));
    let mut all_routes: Vec<Vec<Hop>> = Vec::new();
    match start {
        Some(s) => {
            let mut visited: HashSet<usize> = HashSet::new();
            let mut path: Vec<Hop> = Vec::new();
            assert(visited@ =~= Set::<usize>::empty());
            find_all_routes(graph, s, goal, desired, &mut path, &mut all_routes, &mut visited);
            assert(routes_view(all_routes@) =~= search(*graph, s, goal, tag_view(desired), Seq::empty(), Set::empty()));
        },
        None => {
            if goal.is_none() && desired.is_none() {
                return Err(RouteError::InvalidQuery);
            }
            let mut node: usize = 0;
            assert(routes_view(all_routes@) =~= routes_from_roots(*graph, goal, tag_view(desired), 0));
            while node < n
                invariant
                    0 <= node <= n,
                    n == graph_nodes(*graph).len(),
                    routes_view(all_routes@) == routes_from_roots(*graph, goal, tag_view(desired), node as nat),
                decreases n - node,
            {
                let mut visited: HashSet<usize> = HashSet::new();
                let mut path: Vec<Hop> = Vec::new();
                assert(visited@ =~= Set::<usize>::empty());
                find_all_routes(graph, node, goal, desired, &mut path, &mut all_routes, &mut visited);
                node = node + 1;
            }
        },
    }
    Ok(all_routes)
}

fn copy_path(path: &Vec<Hop>) -> (r: Vec<Hop>)
    ensures
        r@ == path@,
{
    let mut r: Vec<Hop> = Vec::new();
    let mut i: usize = 0;
    while i < path.len()
        invariant
            0 <= i <= path.len(),
            r@ == path@.subrange(0, i as int),
        decreases path.len() - i,
    {
        r.push(path[i]);
        i = i + 1;
        assert(r@ =~= path@.subrange(0, i as int));
    }
    assert(r@ =~= path@);
    r
}

} // verus!
