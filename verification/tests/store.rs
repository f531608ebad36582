use tdg_rust::error::TdgError;
use tdg_rust::store::{
    admit_edge, admit_node, agent_path_for, edge_query_sql, gen_edge_id, gen_node_id, id_from_uuid,
    merge_parent_ids, node_query_sql, EdgeQuery, NodeQuery, SqlValue,
};

fn strings(v: &[&str]) -> Vec<String> {
    v.iter().map(|s| s.to_string()).collect()
}

#[test]
fn generated_ids_have_prefix_and_twelve_hex_digits() {
    let n = gen_node_id();
    assert_eq!(n.len(), 13);
    assert!(n.starts_with('n'));
    assert!(n[1..].chars().all(|c| c.is_ascii_hexdigit() && !c.is_ascii_uppercase()));
    let e = gen_edge_id();
    assert!(e.starts_with('e'));
    assert_eq!(e.len(), 13);
    assert_ne!(gen_node_id(), gen_node_id());
    assert_eq!(id_from_uuid('n', "0123456789abcdef0123456789abcdef"), "n0123456789ab");
}

#[test]
fn node_and_edge_limits() {
    assert!(admit_node(0).is_ok());
    assert!(admit_node(99_999).is_ok());
    match admit_node(100_000) {
        Err(TdgError::GraphSizeLimit(m)) => assert_eq!(m, "Node limit reached: 100000 >= 100000"),
        other => panic!("unexpected {:?}", other),
    }
    assert!(admit_edge(499_999).is_ok());
    match admit_edge(500_001) {
        Err(TdgError::GraphSizeLimit(m)) => assert_eq!(m, "Edge limit reached: 500001 >= 500000"),
        other => panic!("unexpected {:?}", other),
    }
}

#[test]
fn agent_paths_follow_the_first_parent() {
    assert_eq!(agent_path_for(&vec![], Some("/x")), "");
    assert_eq!(agent_path_for(&strings(&["p1", "p2"]), Some("/root")), "/root/p1");
    assert_eq!(agent_path_for(&strings(&["p1"]), Some("")), "/p1");
    assert_eq!(agent_path_for(&strings(&["p1"]), None), "/p1");
}

#[test]
fn decomposition_merges_parents_without_duplicates() {
    let merged = merge_parent_ids(strings(&["a", "b"]), &strings(&["b", "c", "c", "d"]));
    assert_eq!(merged, strings(&["a", "b", "c", "d"]));
    assert_eq!(merge_parent_ids(vec![], &vec![]), Vec::<String>::new());
}

#[test]
fn node_query_without_filters() {
    let q = node_query_sql(&NodeQuery::default(), 1000);
    assert!(q.sql.contains("FROM nodes WHERE valid_to IS NULL\n"));
    assert!(q.sql.ends_with("ORDER BY created_at DESC\n         LIMIT ?1 OFFSET ?2"));
    assert_eq!(q.params, vec![SqlValue::Int(100), SqlValue::Int(0)]);
}

#[test]
fn node_query_numbers_its_placeholders() {
    let query = NodeQuery {
        node_type: Some("observation".to_string()),
        developmental_stage: Some(3),
        quadrant: Some("UL".to_string()),
        include_deleted: true,
        limit: Some(5000),
        offset: Some(10),
        ..NodeQuery::default()
    };
    let q = node_query_sql(&query, 1000);
    assert!(q.sql.contains(
        "FROM nodes WHERE node_type = ?1 AND developmental_stage = ?2 AND json_extract(quadrants_json, '$.primary') = ?3\n"
    ));
    assert!(q.sql.ends_with("LIMIT ?4 OFFSET ?5"));
    assert_eq!(
        q.params,
        vec![
            SqlValue::Text("observation".to_string()),
            SqlValue::Int(3),
            SqlValue::Text("UL".to_string()),
            SqlValue::Int(1000),
            SqlValue::Int(10),
        ]
    );
}

#[test]
fn deleted_nodes_without_filters_have_no_where_clause() {
    let query = NodeQuery { include_deleted: true, ..NodeQuery::default() };
    let q = node_query_sql(&query, 1000);
    assert!(q.sql.contains("FROM nodes \n"));
    assert!(!q.sql.contains("WHERE"));
}

#[test]
fn edge_query_filters() {
    let query = EdgeQuery {
        source_id: Some("n1".to_string()),
        edge_type: Some("EVIDENCES".to_string()),
        limit: 100,
        ..EdgeQuery::default()
    };
    let q = edge_query_sql(&query);
    assert!(q.sql.contains("FROM edges e WHERE e.valid_to IS NULL AND e.source_id = ?1 AND e.edge_type = ?2 ORDER BY e.created_at DESC LIMIT ?3"));
    assert_eq!(
        q.params,
        vec![SqlValue::Text("n1".to_string()), SqlValue::Text("EVIDENCES".to_string()), SqlValue::Int(100)]
    );
}
