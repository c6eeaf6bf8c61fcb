//! Rendering of discovered routes as a fenced mermaid flowchart.
use vstd::prelude::*;

use crate::graph::{edge_weight, graph_edges, graph_nodes, node_weight, Hop, RouteGraph};
use crate::models::CommunicationMethod;

verus! {

/// The opening fence and diagram header.
pub open spec fn diagram_header() -> Seq<char> {
    "```mermaid\n"@ + "graph TD\n"@
}

/// The closing fence.
pub open spec fn diagram_footer() -> Seq<char> {
    "```"@
}

/// The kind-specific fields of a link.
pub open spec fn link_fields(m: CommunicationMethod) -> Seq<char> {
    match m {
        CommunicationMethod::RESTAPI { method, endpoint, .. } => "Method: "@ + method@
            + " - Endpoint: "@ + endpoint@,
        CommunicationMethod::Kafka { topic, .. } => "Topic: "@ + topic@,
        CommunicationMethod::MQ { queue_name, .. } => "Queue: "@ + queue_name@,
        CommunicationMethod::GRPC { service_name, .. } => "Service: "@ + service_name@,
        CommunicationMethod::FileTransfer { file_path, .. } => "File: "@ + file_path@,
        CommunicationMethod::Soap { wsdl_url, .. } => "WSDL: "@ + wsdl_url@,
    }
}

/// The label written on the arrow of a link.
pub open spec fn link_detail(m: CommunicationMethod) -> Seq<char> {
    m.kind_label() + " - "@ + link_fields(m)
}

/// The diagram line of one hop.
pub open spec fn hop_line(g: RouteGraph, h: Hop) -> Seq<char> {
    "    "@ + graph_nodes(g)[h.0 as int]@ + " -->|"@ + link_detail(graph_edges(g)[h.2 as int].2)
        + "| "@ + graph_nodes(g)[h.1 as int]@ + "\n"@
}

/// The lines of a sequence of hops, one per hop, in order.
pub open spec fn hop_lines(g: RouteGraph, hops: Seq<Hop>) -> Seq<char>
    decreases hops.len(),
{
    if hops.len() == 0 {
        Seq::empty()
    } else {
        hop_lines(g, hops.drop_last()) + hop_line(g, hops.last())
    }
}

/// The lines of a sequence of routes, route after route.
pub open spec fn route_lines(g: RouteGraph, routes: Seq<Seq<Hop>>) -> Seq<char>
    decreases routes.len(),
{
    if routes.len() == 0 {
        Seq::empty()
    } else {
        route_lines(g, routes.drop_last()) + hop_lines(g, routes.last())
    }
}

/// The whole diagram of a sequence of routes.
pub open spec fn diagram(g: RouteGraph, routes: Seq<Seq<Hop>>) -> Seq<char> {
    diagram_header() + route_lines(g, routes) + diagram_footer()
}

/// Every hop of every route names nodes and an edge of the graph.
pub open spec fn routes_in_graph(g: RouteGraph, routes: Seq<Vec<Hop>>) -> bool {
    forall|i: int, j: int|
        0 <= i < routes.len() && 0 <= j < routes[i]@.len() ==> {
            let h = #[trigger] routes[i]@[j];
            &&& h.0 < graph_nodes(g).len()
            &&& h.1 < graph_nodes(g).len()
            &&& h.2 < graph_edges(g).len()
        }
}

fn append_link_detail(out: &mut String, m: &CommunicationMethod)
    ensures
        final(out)@ == old(out)@ + link_detail(*m),
{
    let kind = m.communication_type();
    out.append(kind.as_str());
    out.append(" - ");
    match m {
        CommunicationMethod::RESTAPI { method, endpoint, .. } => {
            out.append("Method: ");
            out.append(method.as_str());
            out.append(" - Endpoint: ");
            out.append(endpoint.as_str());
        },
        CommunicationMethod::Kafka { topic, .. } => {
            out.append("Topic: ");
            out.append(topic.as_str());
        },
        CommunicationMethod::MQ { queue_name, .. } => {
            out.append("Queue: ");
            out.append(queue_name.as_str());
        },
        CommunicationMethod::GRPC { service_name, .. } => {
            out.append("Service: ");
            out.append(service_name.as_str());
        },
        CommunicationMethod::FileTransfer { file_path, .. } => {
            out.append("File: ");
            out.append(file_path.as_str());
        },
        CommunicationMethod::Soap { wsdl_url, .. } => {
            out.append("WSDL: ");
            out.append(wsdl_url.as_str());
        },
    }
    assert(final(out)@ =~= old(out)@ + link_detail(*m));
}

fn append_hop_line(out: &mut String, graph: &RouteGraph, h: Hop)
    requires
        h.0 < graph_nodes(*graph).len(),
        h.1 < graph_nodes(*graph).len(),
        h.2 < graph_edges(*graph).len(),
    ensures
        final(out)@ == old(out)@ + hop_line(*graph, h),
{
    let (source, target, e) = h;
    out.append("    ");
    out.append(node_weight(graph, source).name());
    out.append(" -->|");
    append_link_detail(out, edge_weight(graph, e));
    out.append("| ");
    out.append(node_weight(graph, target).name());
    out.append("\n");
    assert(final(out)@ =~= old(out)@ + hop_line(*graph, h));
}

/// Renders `routes` as a mermaid flowchart: one line per hop of each route,
/// route after route, between the opening and closing fences.
pub fn collect_mermaid_routes(graph: &RouteGraph, routes: &Vec<Vec<Hop>>) -> (r: String)
    requires
        routes_in_graph(*graph, routes@),
    ensures
        r@ == diagram(*graph, routes@.map_values(|p: Vec<Hop>| p@)),
{
    let ghost views = routes@.map_values(|p: Vec<Hop>| p@);
    let mut out = String::new();
    out.append("```mermaid\n");
    out.append("graph TD\n");
    assert(out@ =~= diagram_header() + route_lines(*graph, views.subrange(0, 0)));
    let mut i: usize = 0;
    while i < routes.len()
        invariant
            0 <= i <= routes@.len(),
            routes_in_graph(*graph, routes@),
            views == routes@.map_values(|p: Vec<Hop>| p@),
            out@ == diagram_header() + route_lines(*graph, views.subrange(0, i as int)),
        decreases routes@.len() - i,
    {
        let route = &routes[i];
        let ghost start = out@;
        let mut j: usize = 0;
        assert(route@.subrange(0, 0) =~= Seq::<Hop>::empty());
        while j < route.len()
            invariant
                0 <= j <= route@.len(),
                0 <= i < routes@.len(),
                *route == routes@[i as int],
                routes_in_graph(*graph, routes@),
                out@ == start + hop_lines(*graph, route@.subrange(0, j as int)),
            decreases route@.len() - j,
        {
            let h = route[j];
            assert(h == routes@[i as int]@[j as int]);
            append_hop_line(&mut out, graph, h);
            assert(route@.subrange(0, j as int + 1).drop_last() =~= route@.subrange(0, j as int));
            j = j + 1;
        }
        assert(route@.subrange(0, j as int) =~= route@);
        assert(views.subrange(0, i as int + 1).drop_last() =~= views.subrange(0, i as int));
        i = i + 1;
    }
    assert(views.subrange(0, i as int) =~= views);
    out.append("```");
    out
}

} // verus!
