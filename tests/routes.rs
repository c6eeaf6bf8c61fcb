use std::collections::HashSet;

use app_routes::graph::{Hop, RouteGraph};
use app_routes::models::{AppError, AppInformation, CommunicationMethod};
use app_routes::render::collect_mermaid_routes;
use app_routes::routes::{find_all_routes, find_all_routes_from_anywhere, find_routes, RouteError};
use petgraph::graph::{DiGraph, NodeIndex};

fn tags(names: &[&str]) -> Vec<String> {
    names.iter().map(|s| s.to_string()).collect()
}

fn setup_test_graph() -> RouteGraph {
    let mut graph = DiGraph::<AppInformation, CommunicationMethod>::new();
    let app_a = graph.add_node(AppInformation::new("AppA".to_string()));
    let app_b = graph.add_node(AppInformation::new("AppB".to_string()));
    let app_c = graph.add_node(AppInformation::new("AppC".to_string()));
    let app_d = graph.add_node(AppInformation::new("AppD".to_string()));
    graph.add_edge(
        app_a,
        app_b,
        CommunicationMethod::RESTAPI {
            method: "GET".to_string(),
            endpoint: "/api/data".to_string(),
            route_names: tags(&["payment_route"]),
        },
    );
    graph.add_edge(
        app_b,
        app_c,
        CommunicationMethod::Kafka { topic: "topic1".to_string(), route_names: tags(&["payment_route"]) },
    );
    graph.add_edge(
        app_c,
        app_d,
        CommunicationMethod::Kafka { topic: "topic2".to_string(), route_names: tags(&["payment_route"]) },
    );
    graph
}

fn node_named(graph: &RouteGraph, name: &str) -> NodeIndex {
    graph.node_indices().find(|i| graph[*i].name() == name).unwrap()
}

fn search(graph: &RouteGraph, start: usize, goal: Option<usize>, tag: Option<&str>) -> Vec<Vec<Hop>> {
    let mut path = Vec::new();
    let mut all_routes = Vec::new();
    let mut visited = HashSet::new();
    find_all_routes(graph, start, goal, tag, &mut path, &mut all_routes, &mut visited);
    assert!(path.is_empty());
    all_routes
}

fn is_simple(route: &[Hop]) -> bool {
    let mut seen = HashSet::new();
    if let Some(first) = route.first() {
        seen.insert(first.0);
    }
    for (k, h) in route.iter().enumerate() {
        if k > 0 && route[k - 1].1 != h.0 {
            return false;
        }
        if !seen.insert(h.1) {
            return false;
        }
    }
    true
}

#[test]
fn test_find_route_with_start_and_goal() {
    let graph = setup_test_graph();
    let app_a = node_named(&graph, "AppA");
    let app_d = node_named(&graph, "AppD");
    let desired_route = Some("payment_route");
    let mut path = Vec::new();
    let mut all_routes = Vec::new();
    let mut visited = HashSet::new();
    find_all_routes(
        &graph,
        app_a.index(),
        Some(app_d.index()),
        desired_route,
        &mut path,
        &mut all_routes,
        &mut visited,
    );
    assert_eq!(all_routes.len(), 1);
}

#[test]
fn test_find_all_routes_by_route_name() {
    let graph = setup_test_graph();
    let desired_route = "payment_route";
    let mut all_routes = Vec::new();
    find_all_routes_from_anywhere(&graph, desired_route, &mut all_routes).unwrap();
    assert_eq!(all_routes.len(), 3);
}

#[test]
fn test_collect_mermaid_output() {
    let graph = setup_test_graph();
    let app_a = node_named(&graph, "AppA");
    let app_d = node_named(&graph, "AppD");
    let desired_route = Some("payment_route");
    let mut path = Vec::new();
    let mut all_routes = Vec::new();
    let mut visited = HashSet::new();
    find_all_routes(
        &graph,
        app_a.index(),
        Some(app_d.index()),
        desired_route,
        &mut path,
        &mut all_routes,
        &mut visited,
    );
    let mermaid_output = collect_mermaid_routes(&graph, &all_routes);
    println!("{}", mermaid_output);
    assert!(mermaid_output.contains("AppA -->|REST API - Method: GET - Endpoint: /api/data| AppB"));
    assert!(mermaid_output.contains("AppB -->|Kafka - Topic: topic1| AppC"));
    assert!(mermaid_output.contains("AppC -->|Kafka - Topic: topic2| AppD"));
}

#[test]
fn linear_chain_route_holds_all_edges_in_order() {
    let graph = setup_test_graph();
    let routes = search(&graph, 0, Some(3), Some("payment_route"));
    assert_eq!(routes, vec![vec![(0, 1, 0), (1, 2, 1), (2, 3, 2)]]);
}

#[test]
fn anywhere_records_one_maximal_walk_per_root() {
    let graph = setup_test_graph();
    let mut all_routes = Vec::new();
    find_all_routes_from_anywhere(&graph, "payment_route", &mut all_routes).unwrap();
    assert_eq!(
        all_routes,
        vec![
            vec![(0, 1, 0), (1, 2, 1), (2, 3, 2)],
            vec![(1, 2, 1), (2, 3, 2)],
            vec![(2, 3, 2)],
        ]
    );
}

#[test]
fn anywhere_equals_union_of_rooted_searches() {
    let graph = setup_test_graph();
    let mut all_routes = Vec::new();
    find_all_routes_from_anywhere(&graph, "payment_route", &mut all_routes).unwrap();
    let mut union = Vec::new();
    for n in 0..graph.node_count() {
        union.extend(search(&graph, n, None, Some("payment_route")));
    }
    assert_eq!(all_routes, union);
}

#[test]
fn anywhere_without_route_name_is_invalid_query() {
    let graph = setup_test_graph();
    let mut all_routes = Vec::new();
    assert_eq!(
        find_all_routes_from_anywhere(&graph, "", &mut all_routes),
        Err(RouteError::InvalidQuery)
    );
    assert!(all_routes.is_empty());
    assert_eq!(find_routes(&graph, None, None, ""), Err(RouteError::InvalidQuery));
}

#[test]
fn query_with_unknown_node_is_refused() {
    let graph = setup_test_graph();
    assert_eq!(find_routes(&graph, Some(4), None, "payment_route"), Err(RouteError::UnknownNode));
    assert_eq!(find_routes(&graph, Some(0), Some(9), "payment_route"), Err(RouteError::UnknownNode));
}

#[test]
fn query_with_start_and_goal() {
    let graph = setup_test_graph();
    let routes = find_routes(&graph, Some(1), Some(3), "payment_route").unwrap();
    assert_eq!(routes, vec![vec![(1, 2, 1), (2, 3, 2)]]);
    let routes = find_routes(&graph, Some(2), Some(2), "payment_route").unwrap();
    assert_eq!(routes, vec![Vec::<Hop>::new()]);
}

#[test]
fn query_with_goal_only_searches_from_every_node() {
    let graph = setup_test_graph();
    let routes = find_routes(&graph, None, Some(3), "payment_route").unwrap();
    assert_eq!(
        routes,
        vec![
            vec![(0, 1, 0), (1, 2, 1), (2, 3, 2)],
            vec![(1, 2, 1), (2, 3, 2)],
            vec![(2, 3, 2)],
            vec![],
        ]
    );
}

#[test]
fn query_with_empty_route_name_follows_no_link() {
    let graph = setup_test_graph();
    let routes = find_routes(&graph, Some(0), Some(3), "").unwrap();
    assert!(routes.is_empty());
}

#[test]
fn no_route_name_follows_no_link() {
    let graph = setup_test_graph();
    assert!(search(&graph, 0, Some(3), None).is_empty());
    assert!(search(&graph, 0, None, None).is_empty());
}

fn cyclic_graph() -> RouteGraph {
    let mut graph = DiGraph::<AppInformation, CommunicationMethod>::new();
    let a = graph.add_node(AppInformation::new("A".to_string()));
    let b = graph.add_node(AppInformation::new("B".to_string()));
    let c = graph.add_node(AppInformation::new("C".to_string()));
    let mq = |q: &str, t: &[&str]| CommunicationMethod::MQ { queue_name: q.to_string(), route_names: tags(t) };
    graph.add_edge(a, b, mq("q1", &["r"]));
    graph.add_edge(b, c, mq("q2", &["r", "s"]));
    graph.add_edge(c, a, mq("q3", &["r"]));
    graph.add_edge(b, a, mq("q4", &["s"]));
    graph.add_edge(a, c, mq("q5", &["r"]));
    graph.add_edge(a, c, mq("q6", &["r"]));
    graph
}

#[test]
fn routes_on_a_cyclic_graph_are_simple() {
    let graph = cyclic_graph();
    for start in 0..3 {
        for goal in [None, Some(0), Some(1), Some(2)] {
            for route in search(&graph, start, goal, Some("r")) {
                assert!(is_simple(&route), "{:?}", route);
            }
        }
    }
}

#[test]
fn routes_carry_the_route_name() {
    let graph = cyclic_graph();
    for start in 0..3 {
        for route in search(&graph, start, None, Some("s")) {
            for h in &route {
                assert!(graph.edge_weight(petgraph::graph::EdgeIndex::new(h.2)).unwrap().route_names().contains(&"s".to_string()));
            }
        }
    }
    assert_eq!(search(&graph, 0, None, Some("s")), Vec::<Vec<Hop>>::new());
    assert_eq!(search(&graph, 1, None, Some("s")), vec![vec![(1, 0, 3)], vec![(1, 2, 1)]]);
}

#[test]
fn routes_join_start_and_goal() {
    let graph = cyclic_graph();
    let routes = search(&graph, 0, Some(2), Some("r"));
    assert_eq!(routes.len(), 3);
    for route in &routes {
        assert_eq!(route.first().unwrap().0, 0);
        assert_eq!(route.last().unwrap().1, 2);
    }
    // petgraph walks the outgoing edges of a node newest first
    assert_eq!(routes, vec![vec![(0, 2, 5)], vec![(0, 2, 4)], vec![(0, 1, 0), (1, 2, 1)]]);
}

#[test]
fn visited_and_path_come_back_restored() {
    let graph = cyclic_graph();
    let mut path = vec![(9, 0, 9)];
    let mut all_routes = Vec::new();
    let mut visited: HashSet<usize> = [9].into_iter().collect();
    find_all_routes(&graph, 0, Some(2), Some("r"), &mut path, &mut all_routes, &mut visited);
    assert_eq!(path, vec![(9, 0, 9)]);
    assert_eq!(visited, [9].into_iter().collect());
    assert_eq!(all_routes[0], vec![(9, 0, 9), (0, 2, 5)]);
}

#[test]
fn rendering_has_one_line_per_hop_in_order() {
    let graph = setup_test_graph();
    let routes = vec![vec![(0, 1, 0), (1, 2, 1)], vec![(1, 2, 1)]];
    let out = collect_mermaid_routes(&graph, &routes);
    assert_eq!(
        out,
        "```mermaid\ngraph TD\n    AppA -->|REST API - Method: GET - Endpoint: /api/data| AppB\n    AppB -->|Kafka - Topic: topic1| AppC\n    AppB -->|Kafka - Topic: topic1| AppC\n```"
    );
    assert_eq!(collect_mermaid_routes(&graph, &Vec::new()), "```mermaid\ngraph TD\n```");
}

#[test]
fn rendering_of_every_link_kind() {
    let mut graph = DiGraph::<AppInformation, CommunicationMethod>::new();
    let x = graph.add_node(AppInformation::new("X".to_string()));
    let y = graph.add_node(AppInformation::new("Y".to_string()));
    graph.add_edge(x, y, CommunicationMethod::MQ { queue_name: "orders".to_string(), route_names: vec![] });
    graph.add_edge(x, y, CommunicationMethod::GRPC { service_name: "Billing".to_string(), route_names: vec![] });
    graph.add_edge(x, y, CommunicationMethod::FileTransfer { file_path: "/out/a.csv".to_string(), route_names: vec![] });
    graph.add_edge(x, y, CommunicationMethod::Soap { wsdl_url: "http://h/s?wsdl".to_string(), route_names: vec![] });
    let routes = vec![vec![(0, 1, 0), (0, 1, 1), (0, 1, 2), (0, 1, 3)]];
    let out = collect_mermaid_routes(&graph, &routes);
    assert_eq!(
        out,
        "```mermaid\ngraph TD\n    X -->|MQ - Queue: orders| Y\n    X -->|gRPC - Service: Billing| Y\n    X -->|File Transfer - File: /out/a.csv| Y\n    X -->|SOAP - WSDL: http://h/s?wsdl| Y\n```"
    );
}

#[test]
fn communication_labels_and_route_names() {
    let rest = CommunicationMethod::RESTAPI {
        method: "POST".to_string(),
        endpoint: "/x".to_string(),
        route_names: tags(&["a", "b"]),
    };
    assert_eq!(rest.communication_type(), "REST API");
    assert_eq!(rest.route_names(), &tags(&["a", "b"]));
    assert!(rest.carries_route(&"b".to_string()));
    assert!(!rest.carries_route(&"c".to_string()));
    let kafka = CommunicationMethod::Kafka { topic: "t".to_string(), route_names: vec![] };
    assert_eq!(kafka.communication_type(), "Kafka");
    let grpc = CommunicationMethod::GRPC { service_name: "s".to_string(), route_names: vec![] };
    assert_eq!(grpc.communication_type(), "gRPC");
    let ft = CommunicationMethod::FileTransfer { file_path: "f".to_string(), route_names: vec![] };
    assert_eq!(ft.communication_type(), "File Transfer");
}

#[test]
fn app_information_keeps_its_name() {
    let app = AppInformation::new("Ledger".to_string());
    assert_eq!(app.name(), "Ledger");
    let err = AppError::new("bad".to_string());
    assert!(format!("{:?}", err).contains("bad"));
}
