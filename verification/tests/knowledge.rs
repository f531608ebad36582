use tdg_rust::timestamp::{days_between, is_later};
use tdg_rust::audit::HealthStatus;
use tdg_rust::error::TdgError;
use tdg_rust::knowledge::{
    detect_orphans, detect_orphans_at, lifecycle_archive_ids, orphan_report_at, stale_ids, stale_ids_at, strip_z, ObservationDates,
};
use tdg_rust::knowledge::{
    enforce_archives, hygiene_recommendations, orphan_severity, should_archive, HygieneReport,
};

#[test]
fn orphan_severity_thresholds() {
    assert_eq!(orphan_severity(0), "warning");
    assert_eq!(orphan_severity(30), "warning");
    assert_eq!(orphan_severity(31), "critical");
}

#[test]
fn archive_decisions() {
    // With a deadline, only its passing counts.
    assert!(should_archive(true, Some(true), Some(1), None));
    assert!(!should_archive(true, Some(false), Some(1000), None));
    assert!(!should_archive(true, None, Some(1000), None));
    // Without one, the age against the threshold (60 days by default).
    assert!(should_archive(false, None, Some(61), None));
    assert!(!should_archive(false, None, Some(60), None));
    assert!(should_archive(false, None, Some(11), Some(10)));
    assert!(!should_archive(false, None, None, Some(10)));
}

#[test]
fn only_critical_orphan_observations_are_archived() {
    assert!(enforce_archives("critical", "observation"));
    assert!(!enforce_archives("warning", "observation"));
    assert!(!enforce_archives("critical", "insight"));
}

#[test]
fn recommendations_for_a_messy_graph() {
    let r = hygiene_recommendations(6, 2, 8, 10);
    assert_eq!(
        r,
        vec![
            "Consider removing 6 disconnected nodes or linking them to the graph".to_string(),
            "Prune 2 dangling edges pointing to deleted nodes".to_string(),
            "High ratio of observations — consider converting some to insights or hypotheses".to_string(),
        ]
    );
}

#[test]
fn clean_graph_has_no_recommendations() {
    assert!(hygiene_recommendations(5, 0, 7, 10).is_empty());
    assert!(hygiene_recommendations(0, 0, 0, 0).is_empty());
    // With no node counted, any observation is an excess.
    assert_eq!(hygiene_recommendations(0, 0, 1, 0).len(), 1);
}

#[test]
fn hygiene_report_assembly() {
    let orphans: Vec<String> = (0..7).map(|i| format!("o{}", i)).collect();
    let r = HygieneReport::assemble(
        20,
        30,
        5,
        orphans.clone(),
        vec!["s1".to_string()],
        vec![],
        2,
        vec![("active".to_string(), 18), ("archived".to_string(), 2)],
    );
    assert_eq!(r.total_nodes, 20);
    assert_eq!(r.total_edges, 30);
    assert_eq!(r.orphan_count, 7);
    assert_eq!(r.orphan_ids, orphans);
    assert_eq!(r.stale_count, 1);
    assert_eq!(r.dangling_edge_count, 0);
    assert_eq!(r.recently_archived, 2);
    assert_eq!(r.lifecycle_distribution.len(), 2);
    assert_eq!(
        r.recommendations,
        vec!["Consider removing 7 disconnected nodes or linking them to the graph".to_string()]
    );
}

#[test]
fn health_status_levels() {
    let h = HealthStatus::assess(true, true);
    assert_eq!(h.status, "healthy");
    assert!(h.issues.is_empty());
    let h = HealthStatus::assess(false, true);
    assert_eq!(h.status, "degraded");
    assert_eq!(h.issues, vec!["Graph integrity violations".to_string()]);
    let h = HealthStatus::assess(false, false);
    assert_eq!(h.status, "unhealthy");
    assert_eq!(h.issues.len(), 2);
    assert_eq!(h.issues[1], "Persistence inconsistency");
}

#[test]
fn error_messages_read_as_displayed() {
    assert_eq!(TdgError::CircuitBreakerTripped { threshold: 5 }.message(), "Circuit breaker tripped after 5 consecutive failures");
    assert_eq!(TdgError::NotFound("n1".to_string()).message(), "Not found: n1");
    assert_eq!(TdgError::BusyTimeout.message(), "Busy timeout: database is locked");
    assert_eq!(TdgError::Custom("plain".to_string()).message(), "plain");
}

fn links(id: &str, node_type: &str, created: &str, edges: i64, structural: i64) -> tdg_rust::knowledge::NodeLinks {
    tdg_rust::knowledge::NodeLinks {
        node_id: id.to_string(),
        node_type: node_type.to_string(),
        name: format!("N {}", id),
        created_at: created.to_string(),
        edge_count: edges,
        structural_links: structural,
    }
}

#[test]
fn detect_orphans_basic() {
    let nodes = vec![
        links("a", "observation", "2000-01-01T00:00:00Z", 0, 0),
        links("b", "observation", "2000-01-01T00:00:00Z", 2, 0),
        links("c", "telos", "2000-01-01T00:00:00Z", 1, 0),
        links("d", "insight", "not a time", 0, 0),
    ];
    let r = detect_orphans(&nodes);
    assert_eq!(r.disconnected.len(), 2);
    assert_eq!(r.disconnected[0].node_id, "a");
    assert_eq!(r.disconnected[0].severity, "critical");
    assert!(r.disconnected[0].age_days > 30);
    assert_eq!(r.disconnected[1].age_days, 0);
    assert_eq!(r.disconnected[1].severity, "warning");
    assert_eq!(r.unlinked_observations.len(), 1);
    assert_eq!(r.unlinked_observations[0].node_id, "b");
    assert_eq!(r.unlinked_observations[0].total_edges, 2);
    assert_eq!(lifecycle_archive_ids(&r), vec!["a".to_string()]);
    // 2000-01-11T12:00:00 UTC: "a" is ten whole days old.
    let at = detect_orphans_at(&nodes, (946684800 + 10 * 86400 + 43200, 0));
    assert_eq!(at.disconnected[0].age_days, 10);
    assert_eq!(at.disconnected[0].severity, "warning");
    let fixed = orphan_report_at(&nodes, &vec![Some(3), None, None, Some(31)]);
    assert_eq!(fixed.disconnected[0].severity, "warning");
    assert_eq!(fixed.disconnected[1].severity, "critical");
}

#[test]
fn stale_observations() {
    let obs = vec![
        ObservationDates { node_id: "old".into(), archive_after: None, created_at: "2000-01-01T00:00:00Z".into() },
        ObservationDates { node_id: "due".into(), archive_after: Some("2001-01-01T00:00:00Z".into()), created_at: "2099-01-01T00:00:00".into() },
        ObservationDates { node_id: "future".into(), archive_after: Some("2999-01-01T00:00:00".into()), created_at: "2000-01-01T00:00:00".into() },
        ObservationDates { node_id: "fresh".into(), archive_after: None, created_at: "2999-01-01T00:00:00.5".into() },
        ObservationDates { node_id: "bad".into(), archive_after: None, created_at: "yesterday".into() },
    ];
    assert_eq!(stale_ids(&obs, None), vec!["old".to_string(), "due".to_string()]);
    // 2001-06-01T00:00:00 UTC.
    let now = (991353600i64, 0u32);
    let at = stale_ids_at(&obs, now, Some(10));
    assert_eq!(at, vec!["old".to_string(), "due".to_string()]);
    // Exactly ten whole days is not more than a threshold of ten; eleven is.
    let one = vec![ObservationDates { node_id: "x".into(), archive_after: None, created_at: "2000-01-01T00:00:00".into() }];
    assert!(stale_ids_at(&one, (946684800 + 10 * 86400 + 1, 500), Some(10)).is_empty());
    assert_eq!(stale_ids_at(&one, (946684800 + 11 * 86400, 0), Some(10)), vec!["x".to_string()]);
    // A deadline must be strictly before the moment.
    let due = vec![ObservationDates { node_id: "d".into(), archive_after: Some("2000-01-01T00:00:00.25".into()), created_at: "x".into() }];
    assert!(stale_ids_at(&due, (946684800, 250_000_000), None).is_empty());
    assert_eq!(stale_ids_at(&due, (946684800, 250_000_001), None), vec!["d".to_string()]);
    assert_eq!(strip_z("2024-01-01T00:00:00Z"), "2024-01-01T00:00:00");
}

#[test]
fn hygiene_report_basic() {
    // Two observations and a telos, none linked.
    let report = HygieneReport::assemble(
        3,
        0,
        2,
        vec!["o1".to_string(), "o2".to_string(), "t1".to_string()],
        vec![],
        vec![],
        0,
        vec![("active".to_string(), 3)],
    );
    assert_eq!(report.total_nodes, 3);
    assert!(!report.lifecycle_distribution.is_empty());
}

#[test]
fn whole_days_truncate_toward_zero() {
    let t = (946684800i64, 0u32);
    assert_eq!(days_between((946684800 + 10 * 86400, 0), t), 10);
    assert_eq!(days_between((946684800 + 10 * 86400 - 1, 999_999_999), t), 9);
    // One and a half days before: truncated toward zero, not floored.
    assert_eq!(days_between((946684800 - 86400 - 43200, 0), t), -1);
    assert_eq!(days_between((946684800 - 1, 500_000_000), t), 0);
    assert!(is_later((5, 1), (5, 0)));
    assert!(!is_later((5, 0), (5, 0)));
    assert!(is_later((6, 0), (5, 999_999_999)));
}
