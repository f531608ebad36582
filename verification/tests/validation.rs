use tdg_rust::validation::{
    detect_failure_modes, gate1_grounding, gate2_failure_mode, gate3_joint_validation,
    gate4_cosmological_scope, gate5_provenance_completeness, validate, validate_at, FailureMode,
    GateResult, SynthesisProvenance,
};

fn provenance() -> SynthesisProvenance {
    SynthesisProvenance {
        agent_name: "test-agent".to_string(),
        source: "tdg_submit_synthesis".to_string(),
        derivation_pattern: "structural-mirroring".to_string(),
        invariant_claimed: false,
        decorations_acknowledged: true,
        has_open_joints: false,
        target_status: "ai-draft".to_string(),
    }
}

#[test]
fn validate_passes_all_gates() {
    let r = validate("s1", &provenance(), "A grounded synthesis", 1, 0, &vec![]);
    assert_eq!(r.overall_status, "passed");
    assert_eq!(r.can_elevate_to, "ai-draft");
    assert_eq!(r.gates.len(), 5);
    assert!(r.gates.iter().all(|g| g.passed));
}

#[test]
fn validate_blocks_on_no_grounding() {
    let r = validate("s1", &provenance(), "Ungrounded", 0, 0, &vec![]);
    assert_eq!(r.overall_status, "blocked");
    let g = r.gates.iter().find(|g| g.gate == "grounding").unwrap();
    assert!(g.blocked);
}

#[test]
fn validate_blocks_on_borrowed_rigor() {
    let mut p = provenance();
    p.derivation_pattern = "none".to_string();
    let r = validate("s1", &p, "The flow ∫ over α gives everything", 1, 0, &vec![]);
    assert_eq!(r.overall_status, "blocked");
    assert!(r.gates[1].message.contains("borrowed_rigor"));
}

#[test]
fn validate_blocks_on_orthogonality_violation() {
    let r = validate("s1", &provenance(), "Here the Type Is Determined By Stage", 1, 0, &vec![]);
    assert_eq!(r.overall_status, "blocked");
    assert!(r.gates[1].message.contains("orthogonality_violation"));
}

#[test]
fn validate_blocks_on_humanistic_reduction() {
    let mut p = provenance();
    p.invariant_claimed = true;
    let r = validate("s1", &p, "Cosmic law is just ego and trauma", 1, 0, &vec!["S40".into(), "S11".into()]);
    assert_eq!(r.overall_status, "blocked");
    assert!(r.gates[1].message.contains("humanistic_reduction"));
}

#[test]
fn validate_blocks_on_canonical_with_open_joints() {
    let mut p = provenance();
    p.has_open_joints = true;
    p.target_status = "canonical".to_string();
    let r = validate("s1", &p, "plain", 1, 0, &vec![]);
    assert_eq!(r.overall_status, "blocked");
    assert!(r.gates[2].blocked);
}

#[test]
fn validate_blocks_on_single_scale_invariant() {
    let mut p = provenance();
    p.invariant_claimed = true;
    let r = validate("s1", &p, "plain", 1, 0, &vec!["S40".into()]);
    assert_eq!(r.overall_status, "blocked");
    assert!(r.gates[3].blocked);
    assert_eq!(
        r.gates[3].message,
        "Invariant claim cites only 1 scale(s). Must cite ≥2 scales (atom AND galaxy). Relabel as decoration."
    );
}

#[test]
fn validate_passes_with_two_scales() {
    let mut p = provenance();
    p.invariant_claimed = true;
    let r = validate("s1", &p, "plain", 1, 0, &vec!["S40".into(), "S11".into()]);
    assert_eq!(r.overall_status, "passed");
    assert_eq!(r.gates[3].message, "Invariant cites 2 scales: S40, S11");
}

#[test]
fn validate_blocks_on_missing_provenance() {
    let mut p = provenance();
    p.agent_name = String::new();
    p.derivation_pattern = String::new();
    let r = validate("s1", &p, "plain", 1, 0, &vec![]);
    assert_eq!(r.overall_status, "blocked");
    assert_eq!(r.gates[4].message, "Missing: agent_name, derivation_pattern");
}

#[test]
fn gate_messages() {
    assert_eq!(gate1_grounding(3, 0).message, "Cites 3 canonical node(s)");
    assert_eq!(gate1_grounding(0, 2).message, "Cites 2 canonical-hypothesis node(s)");
    assert!(gate1_grounding(0, 0).blocked);
    let g = gate2_failure_mode(&provenance(), "Nothing suspicious");
    assert!(g.passed);
    assert_eq!(g.message, "No QIM failure modes detected");
    let mut p = provenance();
    p.has_open_joints = true;
    assert!(gate3_joint_validation(&p).passed);
    assert!(gate4_cosmological_scope(&provenance(), &vec![]).passed);
    assert!(gate5_provenance_completeness(&provenance()).passed);
    let g = GateResult::blocked("x", "y");
    assert!(!g.passed && g.blocked);
}

#[test]
fn failure_mode_detection_order_and_case() {
    let mut p = provenance();
    p.derivation_pattern = "none".to_string();
    p.invariant_claimed = true;
    let text = "This INVARIANT is exactly like that: it Matches the archetypes, just like physics → cosmic ego";
    let modes = detect_failure_modes(&p, text);
    assert_eq!(
        modes,
        vec![
            FailureMode::BorrowedRigor,
            FailureMode::NumerologyNotIsomorphism,
            FailureMode::MisplacedInvariant,
            FailureMode::UnexaminedFlagshipAnalogy,
            FailureMode::HumanisticReduction,
        ]
    );
    assert!(detect_failure_modes(&provenance(), "just like a test").is_empty());
}

#[test]
fn validate_at_keeps_timestamp() {
    let r = validate_at("s9", &provenance(), "x", 1, 0, &vec![], "2024-01-01T00:00:00Z".to_string());
    assert_eq!(r.validated_at, "2024-01-01T00:00:00Z");
    assert_eq!(r.synthesis_id, "s9");
}

#[test]
fn failure_mode_orthogonality_violation() {
    let p = provenance();
    assert_eq!(detect_failure_modes(&p, "Its Type Is Determined By Stage."), vec![FailureMode::OrthogonalityViolation]);
    assert_eq!(detect_failure_modes(&p, "the type_class depends on stage"), vec![FailureMode::OrthogonalityViolation]);
    assert!(detect_failure_modes(&p, "type and stage are independent").is_empty());
}
