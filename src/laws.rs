//! What holds of every route the search records and of every diagram.
use vstd::prelude::*;

use crate::graph::{graph_edges, graph_out_edges, Hop, RouteGraph};
use crate::render::{hop_line, hop_lines, route_lines};
use crate::routes::{dead_end, explore, followable, routes_from_roots, search};
use crate::visit::{index_space, lemma_visit_shrinks, unvisited_below};

verus! {

broadcast use lemma_visit_shrinks;

/// Each hop of `p` starts where the one before it ended.
pub open spec fn is_walk(p: Seq<Hop>) -> bool {
    forall|k: int| 0 <= k < p.len() - 1 ==> (#[trigger] p[k]).1 == p[k + 1].0
}

/// The nodes a non-empty route passes through, its first source included.
pub open spec fn route_nodes(p: Seq<Hop>) -> Seq<usize> {
    seq![p[0].0] + p.map_values(|h: Hop| h.1)
}

/// The route is a walk on which no node comes twice.
pub open spec fn is_simple(p: Seq<Hop>) -> bool {
    p.len() == 0 || (is_walk(p) && route_nodes(p).no_duplicates())
}

/// Every link of the route carries the route name `tag`.
pub open spec fn carries_tag(g: RouteGraph, p: Seq<Hop>, tag: Seq<char>) -> bool {
    forall|k: int| 0 <= k < p.len() ==> graph_edges(g)[(#[trigger] p[k]).2 as int].2.has_route(tag)
}

/// No link named `tag` leaves the last node of the non-empty route `r` for a
/// node that is not on `r`: the route cannot be extended.
pub open spec fn is_maximal(g: RouteGraph, r: Seq<Hop>, tag: Seq<char>) -> bool {
    dead_end(g, graph_out_edges(g)[r.last().1 as int], route_nodes(r).to_set(), Some(tag))
}

proof fn lemma_to_set_last(s: Seq<usize>)
    requires
        s.len() > 0,
    ensures
        s.to_set() == s.drop_last().to_set().insert(s.last()),
{
    assert forall|x: usize| s.to_set().contains(x) <==> s.drop_last().to_set().insert(s.last()).contains(x) by {
        if s.contains(x) {
            let i = choose|i: int| 0 <= i < s.len() && s[i] == x;
            if i < s.len() - 1 {
                assert(s.drop_last()[i] == x);
            }
        }
        if s.drop_last().contains(x) {
            let i = choose|i: int| 0 <= i < s.drop_last().len() && s.drop_last()[i] == x;
            assert(s[i] == x);
        }
        if x == s.last() {
            assert(s[s.len() - 1] == x);
        }
    }
    assert(s.to_set() =~= s.drop_last().to_set().insert(s.last()));
}

/// The nodes of a search state: those of its path, or its node alone.
spec fn walk_nodes(path: Seq<Hop>, cur: usize) -> Seq<usize> {
    if path.len() == 0 {
        seq![cur]
    } else {
        route_nodes(path)
    }
}

/// What a search state keeps: its path is a simple walk from `start` to
/// `cur` along links named `tag`, and every node of it but `cur` is marked.
spec fn sound_state(
    g: RouteGraph,
    cur: usize,
    tag: Seq<char>,
    path: Seq<Hop>,
    visited: Set<usize>,
    start: usize,
) -> bool {
    &&& path.len() == 0 ==> start == cur
    &&& path.len() > 0 ==> path[0].0 == start && path.last().1 == cur
    &&& is_walk(path)
    &&& walk_nodes(path, cur).no_duplicates()
    &&& forall|k: int|
        0 <= k < walk_nodes(path, cur).len() - 1 ==> visited.contains(
            #[trigger] walk_nodes(path, cur)[k],
        )
    &&& carries_tag(g, path, tag)
    &&& visited == walk_nodes(path, cur).drop_last().to_set()
}

/// What holds of each recorded route.
spec fn sound_route(g: RouteGraph, r: Seq<Hop>, tag: Seq<char>, start: usize, goal: Option<usize>) -> bool {
    &&& is_simple(r)
    &&& carries_tag(g, r, tag)
    &&& r.len() > 0 ==> r[0].0 == start
    &&& r.len() == 0 ==> goal == Some(start)
    &&& (goal is Some && r.len() > 0) ==> r.last().1 == goal->0
    &&& goal is None ==> is_maximal(g, r, tag)
}

proof fn lemma_state_route(g: RouteGraph, cur: usize, tag: Seq<char>, path: Seq<Hop>, visited: Set<usize>, start: usize, goal: Option<usize>)
    requires
        sound_state(g, cur, tag, path, visited, start),
        goal is Some ==> goal->0 == cur,
        path.len() == 0 ==> goal == Some(cur),
        goal is None ==> dead_end(g, graph_out_edges(g)[cur as int], visited.insert(cur), Some(tag)),
    ensures
        sound_route(g, path, tag, start, goal),
{
    if goal is None {
        lemma_to_set_last(walk_nodes(path, cur));
        assert(walk_nodes(path, cur) == route_nodes(path));
    }
}

proof fn lemma_step(
    g: RouteGraph,
    cur: usize,
    tag: Seq<char>,
    path: Seq<Hop>,
    visited: Set<usize>,
    start: usize,
    t: usize,
    e: usize,
)
    requires
        sound_state(g, cur, tag, path, visited, start),
        !visited.insert(cur).contains(t),
        graph_edges(g)[e as int].2.has_route(tag),
    ensures
        sound_state(g, t, tag, path.push((cur, t, e)), visited.insert(cur), start),
{
    let marked = visited.insert(cur);
    let np = path.push((cur, t, e));
    let old_nodes = walk_nodes(path, cur);
    assert(walk_nodes(np, t) =~= old_nodes.push(t));
    assert(old_nodes.last() == cur);
    assert(walk_nodes(np, t).drop_last() =~= old_nodes);
    lemma_to_set_last(old_nodes);
    assert forall|k: int| 0 <= k < old_nodes.len() implies marked.contains(#[trigger] old_nodes[k]) by {
        if k < old_nodes.len() - 1 {
            assert(visited.contains(old_nodes[k]));
        }
    }
    assert(walk_nodes(np, t).no_duplicates()) by {
        assert forall|a: int, b: int|
            0 <= a < walk_nodes(np, t).len() && 0 <= b < walk_nodes(np, t).len() && a != b implies
            walk_nodes(np, t)[a] != walk_nodes(np, t)[b] by {
            if a < old_nodes.len() && b < old_nodes.len() {
            } else if a < old_nodes.len() {
                assert(marked.contains(old_nodes[a]));
            } else {
                assert(marked.contains(old_nodes[b]));
            }
        }
    }
    assert forall|k: int| 0 <= k < walk_nodes(np, t).len() - 1 implies marked.contains(
        #[trigger] walk_nodes(np, t)[k],
    ) by {
        assert(walk_nodes(np, t)[k] == old_nodes[k]);
    }
    assert(carries_tag(g, np, tag)) by {
        assert forall|k: int| 0 <= k < np.len() implies graph_edges(g)[(#[trigger] np[k]).2 as int].2.has_route(tag) by {
            if k < path.len() {
                assert(np[k] == path[k]);
            }
        }
    }
    assert(is_walk(np)) by {
        assert forall|k: int| 0 <= k < np.len() - 1 implies (#[trigger] np[k]).1 == np[k + 1].0 by {
            if k < path.len() - 1 {
                assert(np[k] == path[k] && np[k + 1] == path[k + 1]);
            }
        }
    }
}

proof fn lemma_root_state(g: RouteGraph, start: usize, tag: Seq<char>)
    ensures
        sound_state(g, start, tag, Seq::empty(), Set::empty(), start),
{
    assert(walk_nodes(Seq::empty(), start).drop_last() =~= Seq::<usize>::empty());
    assert(Seq::<usize>::empty().to_set() =~= Set::<usize>::empty());
}

proof fn lemma_search_sound(
    g: RouteGraph,
    cur: usize,
    goal: Option<usize>,
    tag: Seq<char>,
    path: Seq<Hop>,
    visited: Set<usize>,
    start: usize,
)
    requires
        sound_state(g, cur, tag, path, visited, start),
    ensures
        forall|k: int|
            0 <= k < search(g, cur, goal, Some(tag), path, visited).len() ==> sound_route(
                g,
                #[trigger] search(g, cur, goal, Some(tag), path, visited)[k],
                tag,
                start,
                goal,
            ),
    decreases unvisited_below(visited.insert(cur), index_space()), 1nat, 0nat,
{
    if goal == Some(cur) {
        lemma_state_route(g, cur, tag, path, visited, start, goal);
    } else {
        let marked = visited.insert(cur);
        let outs = crate::graph::graph_out_edges(g)[cur as int];
        lemma_explore_sound(g, cur, goal, tag, path, visited, outs, 0, start);
        let a = explore(g, cur, goal, Some(tag), path, marked, outs, 0);
        let b: Seq<Seq<Hop>> = if goal.is_none() && path.len() > 0 && dead_end(g, outs, marked, Some(tag)) {
            lemma_state_route(g, cur, tag, path, visited, start, goal);
            seq![path]
        } else {
            Seq::empty()
        };
        let res = search(g, cur, goal, Some(tag), path, visited);
        assert(res == a + b);
        assert forall|k: int| 0 <= k < res.len() implies sound_route(g, #[trigger] res[k], tag, start, goal) by {
            if k < a.len() {
                assert(res[k] == a[k]);
            } else {
                assert(res[k] == b[k - a.len()]);
            }
        }
    }
}

proof fn lemma_explore_sound(
    g: RouteGraph,
    cur: usize,
    goal: Option<usize>,
    tag: Seq<char>,
    path: Seq<Hop>,
    visited: Set<usize>,
    outs: Seq<usize>,
    i: nat,
    start: usize,
)
    requires
        sound_state(g, cur, tag, path, visited, start),
    ensures
        forall|k: int|
            0 <= k < explore(g, cur, goal, Some(tag), path, visited.insert(cur), outs, i).len()
                ==> sound_route(
                g,
                #[trigger] explore(g, cur, goal, Some(tag), path, visited.insert(cur), outs, i)[k],
                tag,
                start,
                goal,
            ),
    decreases unvisited_below(visited.insert(cur), index_space()), 0nat, outs.len() - i,
{
    let marked = visited.insert(cur);
    if i < outs.len() {
        let e = outs[i as int];
        let t = graph_edges(g)[e as int].1;
        if followable(g, e, marked, Some(tag)) {
            lemma_step(g, cur, tag, path, visited, start, t, e);
            lemma_search_sound(g, t, goal, tag, path.push((cur, t, e)), marked, start);
        }
        lemma_explore_sound(g, cur, goal, tag, path, visited, outs, i + 1, start);
        let a: Seq<Seq<Hop>> = if followable(g, e, marked, Some(tag)) {
            search(g, t, goal, Some(tag), path.push((cur, t, e)), marked)
        } else {
            Seq::empty()
        };
        let b = explore(g, cur, goal, Some(tag), path, marked, outs, i + 1);
        let res = explore(g, cur, goal, Some(tag), path, marked, outs, i);
        assert(res == a + b);
        assert forall|k: int| 0 <= k < res.len() implies sound_route(g, #[trigger] res[k], tag, start, goal) by {
            if k < a.len() {
                assert(res[k] == a[k]);
            } else {
                assert(res[k] == b[k - a.len()]);
            }
        }
    }
}

/// Every route that a search from `start` records is a simple path: it is a
/// walk, and no application comes twice among the endpoints of its links.
pub proof fn lemma_routes_are_simple(g: RouteGraph, start: usize, goal: Option<usize>, tag: Seq<char>)
    ensures
        forall|k: int|
            0 <= k < search(g, start, goal, Some(tag), Seq::empty(), Set::empty()).len() ==> is_simple(
                #[trigger] search(g, start, goal, Some(tag), Seq::empty(), Set::empty())[k],
            ),
{
    lemma_root_state(g, start, tag);
    lemma_search_sound(g, start, goal, tag, Seq::empty(), Set::empty(), start);
    let res = search(g, start, goal, Some(tag), Seq::empty(), Set::empty());
    assert forall|k: int| 0 <= k < res.len() implies is_simple(#[trigger] res[k]) by {
        assert(sound_route(g, res[k], tag, start, goal));
    }
}

/// Every link of every route that a search for the route name `tag` records
/// carries `tag`.
pub proof fn lemma_routes_carry_tag(g: RouteGraph, start: usize, goal: Option<usize>, tag: Seq<char>)
    ensures
        forall|k: int|
            0 <= k < search(g, start, goal, Some(tag), Seq::empty(), Set::empty()).len() ==> carries_tag(
                g,
                #[trigger] search(g, start, goal, Some(tag), Seq::empty(), Set::empty())[k],
                tag,
            ),
{
    lemma_root_state(g, start, tag);
    lemma_search_sound(g, start, goal, tag, Seq::empty(), Set::empty(), start);
    let res = search(g, start, goal, Some(tag), Seq::empty(), Set::empty());
    assert forall|k: int| 0 <= k < res.len() implies carries_tag(g, #[trigger] res[k], tag) by {
        assert(sound_route(g, res[k], tag, start, goal));
    }
}

/// With a start and a goal, every route recorded begins at the start and ends
/// at the goal; the empty route is recorded only when the two coincide.
pub proof fn lemma_routes_join_start_and_goal(g: RouteGraph, start: usize, goal: usize, tag: Seq<char>)
    ensures
        forall|k: int|
            0 <= k < search(g, start, Some(goal), Some(tag), Seq::empty(), Set::empty()).len() ==> {
                let r = #[trigger] search(g, start, Some(goal), Some(tag), Seq::empty(), Set::empty())[k];
                &&& r.len() > 0 ==> r[0].0 == start && r.last().1 == goal
                &&& r.len() == 0 ==> start == goal
            },
{
    lemma_root_state(g, start, tag);
    lemma_search_sound(g, start, Some(goal), tag, Seq::empty(), Set::empty(), start);
    let res = search(g, start, Some(goal), Some(tag), Seq::empty(), Set::empty());
    assert forall|k: int| 0 <= k < res.len() implies {
        let r = #[trigger] res[k];
        &&& r.len() > 0 ==> r[0].0 == start && r.last().1 == goal
        &&& r.len() == 0 ==> start == goal
    } by {
        assert(sound_route(g, res[k], tag, start, Some(goal)));
    }
}

/// The routes collected from the roots `0..k` are exactly those recorded by a
/// goal-less search rooted at one of those nodes.
pub proof fn lemma_aggregation(g: RouteGraph, tag: Seq<char>, k: nat)
    ensures
        forall|r: Seq<Hop>|
            #[trigger] routes_from_roots(g, None, Some(tag), k).contains(r) <==> exists|n: usize|
                n < k && #[trigger] search(g, n, None, Some(tag), Seq::empty(), Set::empty()).contains(r),
    decreases k,
{
    if k > 0 {
        lemma_aggregation(g, tag, (k - 1) as nat);
        let prev = routes_from_roots(g, None, Some(tag), (k - 1) as nat);
        let last = search(g, (k - 1) as usize, None, Some(tag), Seq::empty(), Set::empty());
        assert forall|r: Seq<Hop>| #[trigger] routes_from_roots(g, None, Some(tag), k).contains(r) <==> (prev.contains(r) || last.contains(r)) by {
            let all = routes_from_roots(g, None, Some(tag), k);
            assert(all == prev + last);
            if all.contains(r) {
                let j = choose|j: int| 0 <= j < all.len() && all[j] == r;
                if j < prev.len() {
                    assert(prev[j] == r);
                } else {
                    assert(last[j - prev.len()] == r);
                }
            }
            if prev.contains(r) {
                let j = choose|j: int| 0 <= j < prev.len() && prev[j] == r;
                assert(all[j] == r);
            }
            if last.contains(r) {
                let j = choose|j: int| 0 <= j < last.len() && last[j] == r;
                assert(all[j + prev.len()] == r);
            }
        }
    }
}

/// Every route collected from the roots `0..k` without a goal is a non-empty
/// simple path along links named `tag` that cannot be extended.
pub proof fn lemma_anywhere_routes_are_maximal(g: RouteGraph, tag: Seq<char>, k: nat)
    ensures
        forall|r: Seq<Hop>|
            #[trigger] routes_from_roots(g, None, Some(tag), k).contains(r) ==> {
                &&& r.len() > 0
                &&& is_simple(r)
                &&& carries_tag(g, r, tag)
                &&& is_maximal(g, r, tag)
            },
{
    lemma_aggregation(g, tag, k);
    assert forall|r: Seq<Hop>| #[trigger] routes_from_roots(g, None, Some(tag), k).contains(r) implies {
        &&& r.len() > 0
        &&& is_simple(r)
        &&& carries_tag(g, r, tag)
        &&& is_maximal(g, r, tag)
    } by {
        let n = choose|n: usize|
            n < k && #[trigger] search(g, n, None, Some(tag), Seq::empty(), Set::empty()).contains(r);
        let res = search(g, n, None, Some(tag), Seq::empty(), Set::empty());
        lemma_root_state(g, n, tag);
        lemma_search_sound(g, n, None, tag, Seq::empty(), Set::empty(), n);
        let j = choose|j: int| 0 <= j < res.len() && res[j] == r;
        assert(sound_route(g, res[j], tag, n, None));
    }
}

proof fn lemma_hop_lines_concat(g: RouteGraph, a: Seq<Hop>, b: Seq<Hop>)
    ensures
        hop_lines(g, a + b) == hop_lines(g, a) + hop_lines(g, b),
    decreases b.len(),
{
    if b.len() == 0 {
        assert(a + b =~= a);
        assert(hop_lines(g, a) + hop_lines(g, b) =~= hop_lines(g, a));
    } else {
        lemma_hop_lines_concat(g, a, b.drop_last());
        assert((a + b).drop_last() =~= a + b.drop_last());
        assert((a + b).last() == b.last());
        assert(hop_lines(g, a + b) =~= hop_lines(g, a) + hop_lines(g, b.drop_last()) + hop_line(g, b.last()));
    }
}

/// A diagram's body holds one line per hop of each route, route after route
/// and hop after hop, and nothing else.
pub proof fn lemma_rendering_totality(g: RouteGraph, routes: Seq<Seq<Hop>>)
    ensures
        route_lines(g, routes) == hop_lines(g, routes.flatten()),
    decreases routes.len(),
{
    routes.lemma_flatten_and_flatten_alt_are_equivalent();
    if routes.len() > 0 {
        lemma_rendering_totality(g, routes.drop_last());
        routes.drop_last().lemma_flatten_and_flatten_alt_are_equivalent();
        lemma_hop_lines_concat(g, routes.drop_last().flatten_alt(), routes.last());
    }
}

} // verus!
