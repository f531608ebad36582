use tdg_rust::audit::Anomaly;
use tdg_rust::holon::Node;
use tdg_rust::integrity::{
    count_serious, edge_anomalies, integrity_is_healthy, node_anomalies, node_findings_exec, NodeFinding,
};

fn sample_node(id: &str, node_type: &str, name: &str) -> Node {
    Node {
        id: id.to_string(),
        node_type: node_type.to_string(),
        name: name.to_string(),
        description: None,
        lifecycle_state: "active".to_string(),
        teleological_level: None,
        developmental_stage: None,
        source: None,
        parent_ids: Vec::new(),
        created_at: "2024-01-01T00:00:00Z".to_string(),
        updated_at: "2024-01-01T00:00:00Z".to_string(),
        valid_from: String::new(),
        valid_to: None,
        helpful_count: 0,
        retrieval_count: 0,
        agent_id: None,
        synthesis_status: "ai-draft".to_string(),
        scale_code: None,
        tetra_ul: None,
        tetra_ur: None,
        tetra_ll: None,
        tetra_lr: None,
        octave_id: None,
    }
}

const AT: &str = "2024-06-01T00:00:00+00:00";

#[test]
fn orphan_node_raises_low_knowledge_anomaly() {
    let n = sample_node("abcdefgh-0001", "observation", "Lonely");
    let r = node_anomalies(&n, true, false, 0, None, AT);
    assert_eq!(r.len(), 1);
    let a = &r[0];
    assert_eq!(a.anomaly_id, "orphan_abcdefgh");
    assert_eq!(a.anomaly_type, "orphan_node");
    assert_eq!(a.severity, "low");
    assert_eq!(a.node_id.as_deref(), Some("abcdefgh-0001"));
    assert_eq!(a.description, "No edges: Lonely");
    assert_eq!(a.suggested_action, "Link or archive");
    assert_eq!(a.domain, "knowledge");
    assert_eq!(a.detected_at, AT);
}

#[test]
fn connected_known_node_raises_nothing() {
    let n = sample_node("abcdefgh-0002", "observation", "Fine");
    assert!(node_anomalies(&n, true, false, 2, Some(3), AT).is_empty());
}

#[test]
fn telos_without_level_and_stage() {
    let n = sample_node("telos000-0003", "telos", "Aim");
    let r = node_anomalies(&n, true, false, 1, None, AT);
    assert_eq!(r.len(), 2);
    assert_eq!(r[0].anomaly_id, "no_level_telos000");
    assert_eq!(r[0].description, "TelosNode missing level: Aim");
    assert_eq!(r[0].severity, "high");
    assert_eq!(r[1].anomaly_id, "no_stage_telos000");
    assert_eq!(r[1].description, "TelosNode missing stage: Aim");
    assert_eq!(r[1].domain, "schema");
}

#[test]
fn unknown_type_and_missing_drive() {
    let n = sample_node("zzzzzzzz-0004", "widget", "W");
    let r = node_findings_exec(&n, false, true, 1, None);
    assert_eq!(r, vec![NodeFinding::UnknownType]);
    let a = node_anomalies(&n, false, true, 1, None, AT);
    assert_eq!(a[0].anomaly_id, "bad_nt_zzzzzzzz");
    assert_eq!(a[0].description, "Unknown node_type: widget");

    let o = sample_node("obsobsob-0005", "capability", "C");
    let a = node_anomalies(&o, true, true, 1, None, AT);
    assert_eq!(a.len(), 1);
    assert_eq!(a[0].anomaly_id, "no_drive_obsobsob");
    assert_eq!(a[0].severity, "medium");
    assert_eq!(a[0].description, "capability missing drive_state");
}

#[test]
fn stale_node_reports_its_age() {
    let n = sample_node("stalesta-0006", "insight", "Old");
    let r = node_anomalies(&n, true, false, 1, Some(20), AT);
    assert_eq!(r.len(), 1);
    assert_eq!(r[0].anomaly_id, "stale_stalesta");
    assert_eq!(r[0].anomaly_type, "stale_node");
    assert_eq!(r[0].description, "Stale 20d: Old");
    assert_eq!(r[0].suggested_action, "Update or archive");
    // Fourteen days is not yet stale.
    assert!(node_anomalies(&n, true, false, 1, Some(14), AT).is_empty());
}

#[test]
fn archived_nodes_are_skipped() {
    let mut n = sample_node("archived-0007", "widget", "Gone");
    n.lifecycle_state = "archived".to_string();
    assert!(node_findings_exec(&n, false, true, 0, Some(100)).is_empty());
    assert!(node_anomalies(&n, false, true, 0, Some(100), AT).is_empty());
}

#[test]
fn findings_come_in_audit_order() {
    let mut n = sample_node("orderord-0008", "telos", "T");
    n.teleological_level = Some("L1".to_string());
    let r = node_findings_exec(&n, false, true, 0, Some(30));
    assert_eq!(
        r,
        vec![NodeFinding::UnknownType, NodeFinding::MissingStage, NodeFinding::Orphan, NodeFinding::Stale(30)]
    );
}

#[test]
fn dangling_edges_and_unknown_edge_types() {
    let src = edge_anomalies("edge0001-xx", "a", "b", "EVIDENCES", false, true, true, AT).unwrap();
    assert_eq!(src.anomaly_id, "dangling_src_edge0001");
    assert_eq!(src.anomaly_type, "dangling_edge");
    assert_eq!(src.severity, "high");
    assert_eq!(src.description, "Edge source missing: a");
    assert_eq!(src.edge, Some(("a".to_string(), "b".to_string())));
    assert_eq!(src.domain, "persistence");

    let tgt = edge_anomalies("edge0002-xx", "a", "b", "EVIDENCES", true, false, true, AT).unwrap();
    assert_eq!(tgt.anomaly_id, "dangling_tgt_edge0002");
    assert_eq!(tgt.description, "Edge target missing: b");

    let bad = edge_anomalies("edge0003-xx", "a", "b", "FROBS", true, true, false, AT).unwrap();
    assert_eq!(bad.anomaly_id, "bad_et_edge0003");
    assert_eq!(bad.anomaly_type, "schema_violation");
    assert_eq!(bad.severity, "medium");
    assert_eq!(bad.description, "Unknown edge_type: FROBS");

    assert!(edge_anomalies("edge0004-xx", "a", "b", "EVIDENCES", true, true, true, AT).is_none());
}

#[test]
fn health_depends_on_serious_anomalies_only() {
    let low = Anomaly::new_at("x", "orphan_node", "low", None, None, "d", "", "knowledge", AT.to_string());
    let high = Anomaly::new_at("y", "dangling_edge", "high", None, None, "d", "", "persistence", AT.to_string());
    let crit = Anomaly::new_at("z", "schema_violation", "critical", None, None, "d", "", "schema", AT.to_string());
    assert_eq!(count_serious(&vec![]), 0);
    assert!(integrity_is_healthy(&vec![low.clone()]));
    assert_eq!(count_serious(&vec![low.clone(), high.clone(), crit.clone()]), 2);
    assert!(!integrity_is_healthy(&vec![low, high]));
}

#[test]
fn integrity_report_empty_graph() {
    let anomalies: Vec<Anomaly> = Vec::new();
    assert_eq!(anomalies.len(), 0);
    assert_eq!(count_serious(&anomalies), 0);
    assert!(integrity_is_healthy(&anomalies));
}

#[test]
fn integrity_report_detects_orphan() {
    // An active observation with a drive state and no edges.
    let n = sample_node("n0123456789a", "observation", "Test");
    let anomalies = node_anomalies(&n, true, false, 0, Some(0), "2024-01-01T00:00:00Z");
    assert_eq!(anomalies.len(), 1);
    assert!(integrity_is_healthy(&anomalies)); // orphan is "low" severity
}
