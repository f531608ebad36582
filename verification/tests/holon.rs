use tdg_rust::holon::{inferred_scale_code, Holon, Node, SynthesisStatus};

fn node(id: &str, node_type: &str, name: &str) -> Node {
    Node {
        id: id.to_string(),
        node_type: node_type.to_string(),
        name: name.to_string(),
        description: None,
        lifecycle_state: "active".to_string(),
        teleological_level: None,
        developmental_stage: None,
        source: None,
        parent_ids: Vec::new(),
        created_at: String::new(),
        updated_at: String::new(),
        valid_from: String::new(),
        valid_to: None,
        helpful_count: 0,
        retrieval_count: 0,
        agent_id: None,
        synthesis_status: "ai-draft".to_string(),
        scale_code: Some("S40".to_string()),
        tetra_ul: None,
        tetra_ur: None,
        tetra_ll: None,
        tetra_lr: None,
        octave_id: None,
    }
}

#[test]
fn holon_basic_identity() {
    let n = node("n1", "observation", "Test observation");
    let holon = Holon::new(&n);
    assert_eq!(holon.node_type(), "observation");
    assert_eq!(holon.name(), "Test observation");
    assert!(holon.is_active());
    assert!(holon.is_ai_draft());
    assert!(!holon.is_canonical());
    assert_eq!(holon.scale_code(), Some("S40"));
}

#[test]
fn holon_synthesis_status() {
    let mut n = node("n1", "hypothesis", "Test hypothesis");
    n.synthesis_status = "canonical-hypothesis".to_string();
    let holon = Holon::new(&n);
    assert_eq!(holon.synthesis_status(), Some(SynthesisStatus::CanonicalHypothesis));
    assert!(!holon.is_ai_draft());
    assert!(!holon.is_canonical());
}

#[test]
fn holon_compositional_algebra() {
    let parent = node("p1", "telos", "Parent telos");
    let mut child = node("c1", "observation", "Child observation");
    child.parent_ids = vec![parent.id.clone()];
    let other = node("o1", "observation", "Unrelated");

    let child_holon = Holon::new(&child);
    assert!(child_holon.is_part());
    assert_eq!(child_holon.canonical_parent_id(), Some(parent.id.as_str()));

    let parent_holon = Holon::new(&parent);
    let children = parent_holon.children_among(vec![child.clone(), other]);
    assert_eq!(children.len(), 1);
    assert_eq!(children[0].id, child.id);
}

#[test]
fn holon_tetra_coords() {
    let mut n = node("n1", "observation", "Test");
    n.tetra_ul = Some(5);
    n.tetra_ur = Some(10);
    n.tetra_ll = Some(15);
    n.tetra_lr = Some(19);
    let holon = Holon::new(&n);
    assert_eq!(holon.tetra_coords(), (Some(5), Some(10), Some(15), Some(19)));
}

#[test]
fn holon_octave_id() {
    let mut n = node("n1", "observation", "Previous octave");
    n.octave_id = Some("N-1".to_string());
    let holon = Holon::new(&n);
    assert_eq!(holon.octave_id(), Some("N-1"));
}

#[test]
fn holon_lifecycle_and_stage() {
    let mut n = node("n1", "observation", "x");
    n.developmental_stage = Some(3);
    n.teleological_level = Some("T4".into());
    let h = Holon::new(&n);
    assert_eq!(h.developmental_stage(), Some(3));
    assert_eq!(h.teleological_level(), Some("T4"));
    assert_eq!(h.lifecycle_state(), "active");
    let mut archived = node("n2", "observation", "y");
    archived.lifecycle_state = "archived".into();
    assert!(!Holon::new(&archived).is_active());
    let mut deleted = node("n3", "observation", "z");
    deleted.valid_to = Some("2024".into());
    assert!(!Holon::new(&deleted).is_active());
    assert_eq!(Holon::new(&deleted).all_parent_ids().len(), 0);
    assert_eq!(SynthesisStatus::from_str("superseded"), Some(SynthesisStatus::Superseded));
    assert_eq!(SynthesisStatus::from_str("bogus"), None);
}

#[test]
fn holon_scale_code_inference() {
    // A node added without a scale code gets the one its type implies.
    let mut project = node("p1", "project", "Test project");
    project.scale_code = inferred_scale_code(&project.node_type).map(|s| s.to_string());
    assert_eq!(Holon::new(&project).scale_code(), Some("S30"));

    let mut artifact = node("a1", "artifact", "Test artifact");
    artifact.scale_code = inferred_scale_code(&artifact.node_type).map(|s| s.to_string());
    assert_eq!(Holon::new(&artifact).scale_code(), Some("S50"));

    assert_eq!(inferred_scale_code("bond"), Some("S31"));
    assert_eq!(inferred_scale_code("hypothesis"), Some("S70"));
    assert_eq!(inferred_scale_code("widget"), None);
}

#[test]
fn realm_backfill_table_places_types() {
    let t = tdg_rust::holon::realm_entries();
    assert_eq!(t.len(), 21);
    assert_eq!(t[0], ("observation", "gross"));
    assert!(t.contains(&("telos", "causal")));
    assert!(t.contains(&("bond", "subtle")));
    let s = tdg_rust::holon::scale_entries();
    assert_eq!(s.len(), 21);
    assert!(s.contains(&("artifact", "S50")));
}
