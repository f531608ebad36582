use tdg_rust::grammar::{pattern_description, upward_patterns, Observation};
use std::str::FromStr;
use tdg_rust::grammar::{
    auto_wire_direction, catalyst_blueprint, catalyst_grammar, edge_direction, CatalystType, NodeGrammar,
};

#[test]
fn test_catalyst_type_parsing() {
    assert_eq!(CatalystType::from_str("external_success").ok(), Some(CatalystType::ExternalSuccess));
    assert_eq!("EXTERNAL_SUCCESS".parse::<CatalystType>().ok(), Some(CatalystType::ExternalSuccess));
    assert_eq!("skill_mastered".parse::<CatalystType>().ok(), Some(CatalystType::SkillMastered));
    assert!("unknown".parse::<CatalystType>().is_err());
}

#[test]
fn catalyst_names_roundtrip() {
    for (c, _) in catalyst_grammar() {
        assert_eq!(CatalystType::parse(c.as_str()), Some(c));
    }
    assert_eq!(CatalystType::parse("Skill_Mastered"), Some(CatalystType::SkillMastered));
    assert_eq!(CatalystType::parse("skill mastered"), None);
}

#[test]
fn catalyst_blueprints() {
    let b = catalyst_blueprint(CatalystType::InternalCompletion);
    assert_eq!(b.node_type, "action");
    assert_eq!(b.t_level, "T4");
    assert_eq!(b.title_template, "Completed: {description}");
    assert_eq!(b.default_stage, Some(2));
    assert!(b.require_parent);
    assert!(!b.require_evidence);
    let b = catalyst_blueprint(CatalystType::ProjectCreated);
    assert_eq!(b.node_type, "project");
    assert_eq!(b.t_level, "T2");
    assert_eq!(b.title_template, "Project: {description}");
    let b = catalyst_blueprint(CatalystType::RoutineObservation);
    assert_eq!(b.title_template, "{description}");
    assert_eq!(catalyst_grammar().len(), 10);
}

#[test]
fn titles_fill_the_template() {
    assert_eq!(NodeGrammar::title_for(CatalystType::ExternalSuccess, "deploy ok"), "Observed: deploy ok");
    assert_eq!(NodeGrammar::title_for(CatalystType::RoutineObservation, "tea"), "tea");
    let b = catalyst_blueprint(CatalystType::SkillMastered);
    assert_eq!(
        NodeGrammar::title_for(CatalystType::SkillMastered, "rust"),
        b.title_template.replace("{description}", "rust")
    );
}

#[test]
fn auto_wire_directions() {
    assert_eq!(auto_wire_direction().len(), 20);
    assert_eq!(edge_direction("DECOMPOSES_TO"), Some(true));
    assert_eq!(edge_direction("SYNTHESIZES"), Some(true));
    assert_eq!(edge_direction("EVIDENCES"), Some(false));
    assert_eq!(edge_direction("SEEKS"), Some(false));
    assert_eq!(edge_direction("UNKNOWN"), None);
}

fn obs(id: &str, name: &str) -> Observation {
    Observation { id: id.to_string(), name: name.to_string() }
}

#[test]
fn test_infer_upward_pattern_no_observations() {
    let groups = upward_patterns(&Vec::new());
    assert!(groups.is_empty());
}

#[test]
fn upward_patterns_need_three_occurrences() {
    let observations = vec![
        obs("1", "Login Failure"),
        obs("2", "disk full"),
        obs("3", "login failure"),
        obs("4", "LOGIN FAILURE"),
        obs("5", "Disk Full"),
    ];
    let groups = upward_patterns(&observations);
    assert_eq!(groups.len(), 1);
    assert_eq!(groups[0].pattern, "login failure");
    assert_eq!(groups[0].observation_ids, vec!["1".to_string(), "3".to_string(), "4".to_string()]);
    assert_eq!(pattern_description(&groups[0]), "Pattern detected: 'login failure' (3 observations)");
}

#[test]
fn upward_pattern_keys_are_cut_to_fifty_characters() {
    let long_a = format!("{}{}", "x".repeat(50), "alpha");
    let long_b = format!("{}{}", "X".repeat(50), "beta");
    let long_c = "x".repeat(50);
    let observations = vec![obs("a", &long_a), obs("b", &long_b), obs("c", &long_c)];
    let groups = upward_patterns(&observations);
    assert_eq!(groups.len(), 1);
    assert_eq!(groups[0].pattern, "x".repeat(50));
    assert_eq!(groups[0].observation_ids.len(), 3);
}

#[test]
fn upward_pattern_groups_follow_first_occurrence() {
    let observations = vec![
        obs("1", "b"), obs("2", "a"), obs("3", "a"), obs("4", "b"), obs("5", "a"), obs("6", "b"),
    ];
    let groups = upward_patterns(&observations);
    assert_eq!(groups.len(), 2);
    assert_eq!(groups[0].pattern, "b");
    assert_eq!(groups[1].pattern, "a");
    assert_eq!(groups[1].observation_ids, vec!["2".to_string(), "3".to_string(), "5".to_string()]);
}

#[test]
fn auto_wired_edge_endpoints_follow_direction() {
    assert_eq!(tdg_rust::grammar::wire_endpoints("obs", "telos", "EVIDENCES"), ("obs".to_string(), "telos".to_string()));
    assert_eq!(tdg_rust::grammar::wire_endpoints("act", "proj", "DECOMPOSES_TO"), ("proj".to_string(), "act".to_string()));
    // A type the table does not list runs from the parent.
    assert_eq!(tdg_rust::grammar::wire_endpoints("n", "p", "UNLISTED"), ("p".to_string(), "n".to_string()));
}

#[test]
fn catalyst_from_str_error_names_the_input() {
    assert_eq!(CatalystType::from_str("bogus"), Err("Unknown catalyst type: bogus".to_string()));
}
