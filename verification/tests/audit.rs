use tdg_rust::audit::{Anomaly, AnomalyRegistry, RegistryState};

fn empty() -> RegistryState {
    RegistryState { recent: Vec::new(), chronic: Vec::new(), updated: String::new() }
}

#[test]
fn anomaly_registry_chronic_tracking() {
    let mut state = empty();
    // Record same anomaly 3 times
    for i in 0..3 {
        let a = Anomaly::new(
            &format!("test_{}", i),
            "schema_violation",
            "high",
            Some("node1".to_string()),
            None,
            "Test anomaly",
            "Fix it",
            "schema",
        );
        state = AnomalyRegistry::record_now(state, &a);
    }
    let chronic = &state.chronic;
    assert_eq!(chronic.len(), 1);
    assert_eq!(chronic[0].count, 3);
}

#[test]
fn registry_recent_is_newest_first_and_unique() {
    let mut state = empty();
    let a = Anomaly::new_at("a", "orphan_node", "low", Some("n1".into()), None, "d", "s", "k", "t1".into());
    let b = Anomaly::new_at("b", "orphan_node", "low", Some("n2".into()), None, "d", "s", "k", "t2".into());
    state = AnomalyRegistry::record_into(state, &a, "u1".into());
    state = AnomalyRegistry::record_into(state, &b, "u2".into());
    state = AnomalyRegistry::record_into(state, &a, "u3".into());
    assert_eq!(state.recent.len(), 2);
    assert_eq!(state.recent[0].key, "orphan_node:n1");
    assert_eq!(state.recent[0].count, 2);
    assert_eq!(state.recent[1].key, "orphan_node:n2");
    assert_eq!(state.recent[1].count, 1);
    assert_eq!(state.updated, "u3");
    assert!(state.chronic.is_empty());
}

#[test]
fn registry_bounds_recent_list() {
    let mut state = empty();
    for i in 0..105 {
        let a = Anomaly::new_at("x", "stale_node", "low", Some(format!("n{i}")), None, "d", "s", "k", "t".into());
        state = AnomalyRegistry::record_into(state, &a, "u".into());
    }
    assert_eq!(state.recent.len(), 100);
    assert_eq!(state.recent[0].key, "stale_node:n104");
}

#[test]
fn registry_key_without_node() {
    let mut state = empty();
    let a = Anomaly::new_at("x", "dangling_edge", "high", None, Some(("s".into(), "t".into())), "d", "", "p", "t".into());
    state = AnomalyRegistry::record_into(state, &a, "u".into());
    assert_eq!(state.recent[0].key, "dangling_edge:");
    assert_eq!(state.recent[0].node_id, "");
}

#[test]
fn registry_location() {
    let r = AnomalyRegistry::new("/tmp/reg.json");
    assert_eq!(r.location(), "/tmp/reg.json");
}

fn cap(id: &str, availability: Option<&str>, dependents: usize, out: &[&str]) -> tdg_rust::audit::CapabilityFacts {
    tdg_rust::audit::CapabilityFacts {
        id: id.to_string(),
        name: format!("Cap {}", id),
        availability: availability.map(|a| a.to_string()),
        dependents,
        outgoing_edge_types: out.iter().map(|t| t.to_string()).collect(),
    }
}

#[test]
fn capability_report_empty() {
    let h = tdg_rust::audit::CapabilityHealth::assess(&vec![]);
    assert_eq!(h.total, 0);
    assert_eq!(h.broken, 0);
    assert_eq!(h.unused, 0);
    assert!(h.details.is_empty());
}

#[test]
fn capability_report_puts_broken_first() {
    let caps = vec![
        cap("a", Some("available"), 1, &[]),
        cap("b", Some("expired"), 0, &["SUPPORTS"]),
        cap("c", None, 0, &["RELATES_TO"]),
        cap("d", Some("broken"), 0, &[]),
    ];
    let h = tdg_rust::audit::CapabilityHealth::assess(&caps);
    assert_eq!(h.total, 4);
    assert_eq!(h.broken, 2);
    assert_eq!(h.healthy, 2);
    assert_eq!(h.unused, 2);
    let order: Vec<&str> = h.details.iter().map(|d| d.id.as_str()).collect();
    assert_eq!(order, vec!["b", "d", "a", "c"]);
    assert_eq!(h.details[3].availability, "unknown");
    assert!(!h.details[3].used);
    assert_eq!(h.details[0].enables, 1);
    assert!(h.details[0].used);
}
