use tdg_rust::digestion::{
    cascade_groups, cascade_hypothesis_description, cascade_hypothesis_name, cycle_hypothesis_description,
    cycle_hypothesis_name, digest_observation_name, existing_hypothesis_pattern, ObservationLinks,
};
use tdg_rust::grammar::CatalystType;

fn links(id: &str, targets: &[&str]) -> ObservationLinks {
    ObservationLinks { observation_id: id.to_string(), targets: targets.iter().map(|t| t.to_string()).collect() }
}

#[test]
fn three_observations_of_one_entity_form_a_group() {
    let ls = vec![
        links("o1", &["e1"]),
        links("o2", &["e1", "e2"]),
        links("o3", &["e2"]),
        links("o4", &["e1"]),
    ];
    let groups = cascade_groups(&ls);
    assert_eq!(groups.len(), 1);
    assert_eq!(groups[0].source_id, "e1");
    assert_eq!(groups[0].observation_ids, vec!["o1".to_string(), "o2".to_string(), "o4".to_string()]);
    assert_eq!(cascade_hypothesis_name(&groups[0]), "Hypothesis from 3 observations");
    assert_eq!(
        cascade_hypothesis_description(&groups[0]),
        "Pattern detected: 3 observations mention entity e1"
    );
}

#[test]
fn an_observation_with_both_edge_kinds_counts_once() {
    // o1 both mentions and evidences e1: it must not be counted twice.
    let ls = vec![links("o1", &["e1", "e1"]), links("o2", &["e1"])];
    assert!(cascade_groups(&ls).is_empty());
    let ls = vec![links("o1", &["e1", "e1"]), links("o2", &["e1"]), links("o3", &["e1"])];
    let groups = cascade_groups(&ls);
    assert_eq!(groups.len(), 1);
    assert_eq!(groups[0].observation_ids.len(), 3);
}

#[test]
fn groups_follow_first_appearance_of_their_source() {
    let ls = vec![
        links("a", &["s2", "s1"]),
        links("b", &["s1", "s2"]),
        links("c", &["s1", "s2"]),
    ];
    let groups = cascade_groups(&ls);
    assert_eq!(groups.len(), 2);
    assert_eq!(groups[0].source_id, "s2");
    assert_eq!(groups[1].source_id, "s1");
}

#[test]
fn no_observations_no_groups() {
    assert!(cascade_groups(&Vec::new()).is_empty());
}

#[test]
fn existing_hypothesis_lookup_pattern() {
    assert_eq!(existing_hypothesis_pattern("n42"), "%\"source_node\": \"n42\"%");
}

#[test]
fn digestion_cycle_groups_by_catalyst_type() {
    let ls = vec![
        links("o1", &["external_failure"]),
        links("o2", &[]),
        links("o3", &["external_failure"]),
        links("o4", &["skill_mastered"]),
        links("o5", &["external_failure"]),
    ];
    let groups = cascade_groups(&ls);
    assert_eq!(groups.len(), 1);
    assert_eq!(cycle_hypothesis_name(&groups[0]), "Hypothesis: 3 external_failures");
    assert_eq!(cycle_hypothesis_description(&groups[0]), "Pattern: 3 observations of type external_failure");
}

#[test]
fn digested_catalyst_name_keeps_fifty_characters() {
    assert_eq!(
        digest_observation_name(CatalystType::ExternalFailure, "deploy broke"),
        "external_failure observation: deploy broke"
    );
    let long = "x".repeat(60);
    assert_eq!(
        digest_observation_name(CatalystType::SkillMastered, &long),
        format!("skill_mastered observation: {}", "x".repeat(50))
    );
}
