use tdg_rust::emission::EmissionWalk;

fn ids(v: &[&str]) -> Vec<String> {
    v.iter().map(|s| s.to_string()).collect()
}

#[test]
fn emission_reaches_each_node_once_breadth_first() {
    // root -> a, b; a -> c, b; b -> c, root
    let mut w = EmissionWalk::start("root", 5, ids(&["a", "b", "a"]));
    let v = w.next().unwrap();
    assert_eq!((v.node.as_str(), v.depth, v.from.as_str(), v.state), ("a", 1, "root", 0));
    w.expand("a", v.depth, ids(&["c", "b"]), 1);
    let v = w.next().unwrap();
    assert_eq!((v.node.as_str(), v.depth, v.from.as_str(), v.state), ("b", 1, "root", 0));
    w.expand("b", v.depth, ids(&["c", "root"]), 2);
    let v = w.next().unwrap();
    assert_eq!((v.node.as_str(), v.depth, v.from.as_str(), v.state), ("c", 2, "a", 1));
    w.expand("c", v.depth, vec![], 3);
    assert!(w.next().is_none());
}

#[test]
fn emission_passes_over_nodes_below_the_depth() {
    let mut w = EmissionWalk::start("root", 1, ids(&["a"]));
    let v = w.next().unwrap();
    assert_eq!(v.node, "a");
    w.expand("a", v.depth, ids(&["deep"]), 1);
    assert!(w.next().is_none());
}

#[test]
fn emission_with_no_depth_reaches_nothing() {
    let mut w = EmissionWalk::start("root", 0, ids(&["a", "b"]));
    assert!(w.next().is_none());
}
