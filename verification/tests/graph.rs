use petgraph::graph::{DiGraph, NodeIndex};
use tdg_rust::graph::{is_connected, GraphProjection};

fn chain(n: usize) -> DiGraph<String, String> {
    let mut g = DiGraph::new();
    for i in 0..n {
        g.add_node(format!("N{i}"));
    }
    for i in 0..n.saturating_sub(1) {
        g.add_edge(NodeIndex::new(i), NodeIndex::new(i + 1), "edge".into());
    }
    g
}

#[test]
fn connected_true() {
    let g = chain(4);
    assert!(is_connected(&g));
}

#[test]
fn connected_false() {
    let mut g: DiGraph<String, String> = DiGraph::new();
    g.add_node("A".into());
    g.add_node("B".into());
    // No edges -> disconnected
    assert!(!is_connected(&g));
}

#[test]
fn empty_and_single_node_graphs_are_connected() {
    assert!(is_connected(&chain(0)));
    assert!(is_connected(&chain(1)));
}

#[test]
fn edges_count_in_either_direction() {
    // 0 <- 1 <- 2 : weakly connected though nothing leaves node 0.
    let mut g: DiGraph<String, String> = DiGraph::new();
    for label in ["a", "b", "c"] {
        g.add_node(label.into());
    }
    g.add_edge(NodeIndex::new(1), NodeIndex::new(0), "e".into());
    g.add_edge(NodeIndex::new(2), NodeIndex::new(1), "e".into());
    assert!(is_connected(&g));
    let mut h: DiGraph<String, String> = DiGraph::new();
    for label in ["a", "b", "c", "d"] {
        h.add_node(label.into());
    }
    h.add_edge(NodeIndex::new(0), NodeIndex::new(1), "e".into());
    h.add_edge(NodeIndex::new(2), NodeIndex::new(3), "e".into());
    assert!(!is_connected(&h));
}

#[test]
fn projection_keeps_edges_between_known_nodes() {
    let ids: Vec<String> = vec!["a".into(), "b".into(), "c".into()];
    let edges: Vec<(String, String, String)> = vec![
        ("a".into(), "b".into(), "SUPPORTS".into()),
        ("b".into(), "zz".into(), "MENTIONS".into()),
        ("c".into(), "a".into(), "EVIDENCES".into()),
    ];
    let p = GraphProjection::build(ids, &edges);
    assert_eq!(p.graph.node_count(), 3);
    assert_eq!(p.graph.edge_count(), 2);
    assert_eq!(p.graph[NodeIndex::new(2)], "c");
    let e: Vec<(usize, usize, String)> = p
        .graph
        .raw_edges()
        .iter()
        .map(|e| (e.source().index(), e.target().index(), e.weight.clone()))
        .collect();
    assert_eq!(e, vec![(0, 1, "SUPPORTS".to_string()), (2, 0, "EVIDENCES".to_string())]);
    assert_eq!(p.node_index("c"), Some(2));
    assert_eq!(p.node_index("zz"), None);
    assert!(is_connected(&p.graph));
}

#[test]
fn projection_maps_a_repeated_identifier_to_its_last_node() {
    let ids: Vec<String> = vec!["a".into(), "b".into(), "a".into()];
    let edges: Vec<(String, String, String)> = vec![("b".into(), "a".into(), "CONTEXT".into())];
    let p = GraphProjection::build(ids, &edges);
    assert_eq!(p.node_index("a"), Some(2));
    assert_eq!(p.graph.raw_edges()[0].target().index(), 2);
    assert!(!is_connected(&p.graph));
}

#[test]
fn community_count_is_one_past_the_largest_identifier() {
    assert_eq!(tdg_rust::graph::community_count(&vec![]), 0);
    assert_eq!(tdg_rust::graph::community_count(&vec![0, 0, 0]), 1);
    assert_eq!(tdg_rust::graph::community_count(&vec![0, 2, 1, 2]), 3);
}
