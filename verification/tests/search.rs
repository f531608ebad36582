use std::collections::HashMap;
use tdg_rust::search::{PathSearch, PathStep};

/// Run a search against an undirected adjacency list, as the store answers.
fn run(adj: &HashMap<&str, Vec<&str>>, from: &str, to: &str, max_depth: i64, max_edges: i64) -> Vec<Vec<String>> {
    let mut s = PathSearch::new(from, to, max_depth, max_edges);
    loop {
        match s.next_step() {
            PathStep::Neighbors(n) => {
                let ns = adj.get(n.as_str()).cloned().unwrap_or_default();
                s.on_neighbors(ns.iter().map(|x| x.to_string()).collect());
            }
            PathStep::Done(paths) => return paths,
        }
    }
}

fn undirected(edges: &[(&'static str, &'static str)]) -> HashMap<&'static str, Vec<&'static str>> {
    let mut adj: HashMap<&str, Vec<&str>> = HashMap::new();
    for (a, b) in edges {
        adj.entry(a).or_default().push(b);
        adj.entry(b).or_default().push(a);
    }
    adj
}

#[test]
fn pathfind_test() {
    let adj = undirected(&[("A", "B"), ("B", "C")]);
    let paths = run(&adj, "A", "C", 5, 100);
    assert!(!paths.is_empty());
    assert_eq!(paths[0], vec!["A".to_string(), "B".to_string(), "C".to_string()]);
}

#[test]
fn source_equal_to_target_is_a_path_of_one() {
    let adj = undirected(&[("A", "B")]);
    assert_eq!(run(&adj, "A", "A", 5, 100), vec![vec!["A".to_string()]]);
}

#[test]
fn depth_limits_the_paths() {
    let adj = undirected(&[("A", "B"), ("B", "C"), ("C", "D")]);
    assert!(run(&adj, "A", "D", 3, 100).is_empty());
    assert_eq!(run(&adj, "A", "D", 4, 100).len(), 1);
}

#[test]
fn unreachable_target_gives_no_path() {
    let adj = undirected(&[("A", "B"), ("C", "D")]);
    assert!(run(&adj, "A", "D", 10, 100).is_empty());
}

#[test]
fn edge_budget_stops_the_search() {
    let adj = undirected(&[("A", "B"), ("B", "C")]);
    // The first expansion already counts one edge, which exhausts the budget.
    assert!(run(&adj, "A", "C", 5, 1).is_empty());
}

#[test]
fn at_most_five_paths_shortest_first() {
    // The target T is reached directly from S and through each of six
    // intermediate nodes; with a visited set each node is reached once, so
    // the paths found are those through the first-reached neighbours of T.
    let adj = undirected(&[
        ("S", "T"), ("S", "A"), ("S", "B"), ("A", "C"), ("C", "T"), ("B", "T"),
    ]);
    let paths = run(&adj, "S", "T", 10, 1000);
    assert!(!paths.is_empty() && paths.len() <= 5);
    for w in paths.windows(2) {
        assert!(w[0].len() <= w[1].len());
    }
    assert_eq!(paths[0], vec!["S".to_string(), "T".to_string()]);
    for p in &paths {
        assert_eq!(p.first().map(String::as_str), Some("S"));
        assert_eq!(p.last().map(String::as_str), Some("T"));
    }
}

#[test]
fn search_steps_queue_fresh_neighbours_in_order() {
    let mut s = PathSearch::new("A", "Z", 5, 100);
    match s.next_step() {
        PathStep::Neighbors(n) => assert_eq!(n, "A"),
        PathStep::Done(_) => panic!("the source is expanded first"),
    }
    // "A" was visited already and "B" comes twice: only B and C are queued.
    s.on_neighbors(vec!["B".to_string(), "A".to_string(), "B".to_string(), "C".to_string()]);
    match s.next_step() {
        PathStep::Neighbors(n) => assert_eq!(n, "B"),
        PathStep::Done(_) => panic!("B is queued"),
    }
    s.on_neighbors(vec![]);
    match s.next_step() {
        PathStep::Neighbors(n) => assert_eq!(n, "C"),
        PathStep::Done(_) => panic!("C is queued"),
    }
    s.on_neighbors(vec![]);
    match s.next_step() {
        PathStep::Done(paths) => assert!(paths.is_empty()),
        PathStep::Neighbors(n) => panic!("nothing left to expand, asked for {n}"),
    }
}
