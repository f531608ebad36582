use tdg_rust::type_validation::{
    check_type_stage_orthogonality, t1_behavioral_match, t2_excitation_invariance,
    t3_fixed_point_persistence, type_validation_result, validate_type, TypeValidationResult,
};

#[test]
fn type_stage_orthogonality_check() {
    assert!(check_type_stage_orthogonality("sharer", Some(3)));
    assert!(check_type_stage_orthogonality("sharer", Some(1)));
    assert!(check_type_stage_orthogonality("sharer", None));
}

#[test]
fn type_validation_result_is_valid() {
    let result = TypeValidationResult {
        t1_behavioral_match: true,
        t2_excitation_invariance: true,
        t3_fixed_point_persistence: true,
        valid: true,
        details: "All passed".to_string(),
        validated_at: None,
    };
    assert!(result.is_valid());

    let result = TypeValidationResult {
        t1_behavioral_match: false,
        t2_excitation_invariance: true,
        t3_fixed_point_persistence: true,
        valid: false,
        details: "T1 failed".to_string(),
        validated_at: None,
    };
    assert!(!result.is_valid());
}

#[test]
fn t1_donor_has_more_outgoing() {
    assert!(t1_behavioral_match("strong-donor-sto", true, 3, 0));
}

#[test]
fn t1_acceptor_has_more_incoming() {
    assert!(t1_behavioral_match("strong-acceptor-sts", true, 0, 3));
}

#[test]
fn t1_sharer_balanced() {
    assert!(t1_behavioral_match("sharer", true, 1, 1));
    assert!(!t1_behavioral_match("sharer", true, 0, 0));
    assert!(!t1_behavioral_match("sharer", true, 6, 0));
}

#[test]
fn t1_transient_not_bondable() {
    assert!(t1_behavioral_match("transient", false, 0, 0));
    assert!(!t1_behavioral_match("transient", true, 0, 0));
}

#[test]
fn t1_noble_and_unknown() {
    assert!(t1_behavioral_match("noble-graduated", true, 2, 1));
    assert!(!t1_behavioral_match("noble", true, 2, 2));
    assert!(t1_behavioral_match("mystery", true, 9, 0));
}

#[test]
fn t2_no_stage_changes_passes() {
    assert!(t2_excitation_invariance(false, false, "sharer"));
    assert!(t2_excitation_invariance(true, true, "sharer"));
    assert!(!t2_excitation_invariance(true, true, "transient"));
    assert!(t2_excitation_invariance(true, false, "transient"));
}

#[test]
fn t3_few_cycles_passes() {
    assert!(t3_fixed_point_persistence(1, 10));
    assert!(t3_fixed_point_persistence(2, 1));
    assert!(!t3_fixed_point_persistence(2, 2));
    assert!(t3_fixed_point_persistence(9, 3));
    assert!(!t3_fixed_point_persistence(9, 4));
}

#[test]
fn validate_type_all_pass() {
    let result = validate_type("sharer", true, 1, 1, false, false, 0, 0);
    assert!(result.valid);
    assert!(result.t1_behavioral_match);
    assert!(result.t2_excitation_invariance);
    assert!(result.t3_fixed_point_persistence);
    assert_eq!(result.details, "All 3 tests passed — type is validated");
    assert!(result.validated_at.is_some());
}

#[test]
fn validate_type_t1_fails_for_donor_with_no_outgoing() {
    let result = validate_type("strong-donor-sto", true, 0, 0, false, false, 0, 0);
    assert!(!result.t1_behavioral_match);
    assert!(!result.valid);
}

#[test]
fn type_validation_details_list_failures() {
    let r = type_validation_result(false, true, false, "t".to_string());
    assert_eq!(
        r.details,
        "T1 FAILED: observed bonding does not match type_class prediction; T3 FAILED: type_class does not persist across metabolic cycles (transient, not a type)"
    );
    assert_eq!(r.validated_at.as_deref(), Some("t"));
    assert!(!r.valid);
}
