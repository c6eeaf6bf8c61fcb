//! The route graph: a petgraph directed multigraph whose nodes are
//! applications and whose edges are communication links.
//!
//! Verus sees the graph through three names: the node weights, the edges
//! (source, target, weight) in index order, and for each node the indices of
//! its outgoing edges in the order petgraph walks them.
use petgraph::graph::{EdgeIndex, NodeIndex};
use petgraph::visit::EdgeRef;
use vstd::prelude::*;

use crate::models::{AppInformation, CommunicationMethod};

verus! {

#[verifier::external_type_specification]
#[verifier::external_body]
#[verifier::reject_recursive_types(N)]
#[verifier::reject_recursive_types(E)]
#[verifier::reject_recursive_types(Ty)]
#[verifier::reject_recursive_types(Ix)]
pub struct ExGraph<N, E, Ty, Ix>(petgraph::graph::Graph<N, E, Ty, Ix>);

#[verifier::external_type_specification]
#[verifier::external_body]
pub struct ExDirected(petgraph::Directed);

/// The graph of applications and links that routes are searched in.
pub type RouteGraph = petgraph::graph::DiGraph<AppInformation, CommunicationMethod>;

/// One hop of a route: source node, target node and the index of the edge
/// taken between them.
pub type Hop = (usize, usize, usize);

/// The node weights of the graph, by node index.
pub uninterp spec fn graph_nodes(g: RouteGraph) -> Seq<AppInformation>;

/// The edges of the graph, by edge index, as (source, target, weight).
pub uninterp spec fn graph_edges(g: RouteGraph) -> Seq<(usize, usize, CommunicationMethod)>;

/// For each node, the indices of its outgoing edges in iteration order.
pub uninterp spec fn graph_out_edges(g: RouteGraph) -> Seq<Seq<usize>>;

/// Relies on `Graph::node_count`: the number of nodes.
#[verifier::external_body]
pub(crate) fn node_count(g: &RouteGraph) -> (r: usize)
    ensures
        r == graph_nodes(*g).len(),
{
    g.node_count()
}

/// Relies on `Graph::edges`: for a directed graph it walks the outgoing edges
/// of `n`, each with its index and its target, which is a node of the graph.
#[verifier::external_body]
pub(crate) fn outgoing_edges(g: &RouteGraph, n: usize) -> (r: Vec<(usize, usize)>)
    requires
        n < graph_nodes(*g).len(),
    ensures
        r@.len() == graph_out_edges(*g)[n as int].len(),
        forall|i: int|
            0 <= i < r@.len() ==> {
                let e = (#[trigger] r@[i]).0;
                &&& e == graph_out_edges(*g)[n as int][i]
                &&& e < graph_edges(*g).len()
                &&& graph_edges(*g)[e as int].0 == n
                &&& graph_edges(*g)[e as int].1 == r@[i].1
                &&& r@[i].1 < graph_nodes(*g).len()
            },
{
    g.edges(NodeIndex::new(n)).map(|e| (e.id().index(), e.target().index())).collect()
}

/// Relies on indexing a `Graph` by `NodeIndex`: the weight of node `n`.
#[verifier::external_body]
pub(crate) fn node_weight(g: &RouteGraph, n: usize) -> (r: &AppInformation)
    requires
        n < graph_nodes(*g).len(),
    ensures
        *r == graph_nodes(*g)[n as int],
{
    &g[NodeIndex::new(n)]
}

/// Relies on indexing a `Graph` by `EdgeIndex`: the weight of edge `e`.
#[verifier::external_body]
pub(crate) fn edge_weight(g: &RouteGraph, e: usize) -> (r: &CommunicationMethod)
    requires
        e < graph_edges(*g).len(),
    ensures
        *r == graph_edges(*g)[e as int].2,
{
    &g[EdgeIndex::new(e)]
}

} // verus!
