use tdg_rust::context::{
    apply_token_budget, epistemology_status, grounding_for, Analogue, BondSummary, ContextPack, EventSummary,
    ExtraContext, GreatWaySummary, Grounding, InterContext, ParentSummary, ProvenanceSummary, ResonanceSummary,
    SubHolonSummary,
};

#[test]
fn epistemology_status_mapping() {
    assert_eq!(epistemology_status("canonical"), "grounded");
    assert_eq!(epistemology_status("canonical-hypothesis"), "hypothesis-graded");
    assert_eq!(epistemology_status("ai-draft"), "speculative");
    assert_eq!(epistemology_status("superseded"), "superseded");
}

#[test]
fn grounding_reflects_status() {
    let g = grounding_for("canonical", true);
    assert!(g.is_canonical);
    assert!(g.is_stable);
    assert_eq!(g.epistemology_status, "grounded");
    let g = grounding_for("ai-draft", false);
    assert!(!g.is_canonical);
    assert_eq!(g.epistemology_status, "speculative");
    assert_eq!(g.synthesis_status, "ai-draft");
}

fn identity_pack<N>(name: &str, status: &str) -> ContextPack<N> {
    ContextPack {
        holon_id: "test".to_string(),
        node_type: "hypothesis".to_string(),
        name: name.to_string(),
        scale_code: None,
        type_class: "sharer".to_string(),
        synthesis_status: status.to_string(),
        realm_placement: None,
        collectivity: None,
        inter: None,
        extra: None,
        analogues: Vec::new(),
        provenance: None,
        grounding: grounding_for(status, true),
    }
}

#[test]
fn prompt_block_includes_status_tags() {
    let pack: ContextPack<String> = identity_pack("Test hypothesis", "canonical-hypothesis");
    let md = pack.to_prompt_block();
    assert!(md.contains("[status: canonical-hypothesis]"));
    assert!(md.contains("## Holon: Test hypothesis"));
}

#[test]
fn identity_only_block_is_exact() {
    let pack: ContextPack<String> = identity_pack("H", "ai-draft");
    assert_eq!(
        pack.to_prompt_block(),
        "## Holon: H [status: ai-draft]\n\n- **ID**: test\n- **Type**: hypothesis\n- **Type class**: sharer [status: hypothesis-graded]\n- **Epistemology**: speculative\n\n"
    );
}

fn analogue(i: usize) -> Analogue<f64> {
    Analogue {
        holon_id: format!("h{}", i),
        name: format!("Analogue {}", i),
        node_type: "observation".to_string(),
        scale_code: Some("S40".to_string()),
        type_class: "sharer".to_string(),
        resonance: 0.5,
    }
}

#[test]
fn token_budget_truncates_analogues() {
    let mut pack: ContextPack<f64> = identity_pack("Test", "ai-draft");
    pack.scale_code = Some("S40".to_string());
    pack.analogues = (0..10).map(analogue).collect();
    pack.grounding = Grounding {
        synthesis_status: "ai-draft".to_string(),
        is_stable: true,
        is_canonical: false,
        epistemology_status: "speculative".to_string(),
    };
    let pack = apply_token_budget(pack);
    assert!(pack.analogues.len() <= 5);
    assert_eq!(pack.analogues[4].holon_id, "h4");
    assert_eq!(pack.grounding.epistemology_status, "speculative");
}

#[test]
fn token_budget_caps_events_and_resonances() {
    let mut pack: ContextPack<f64> = identity_pack("T", "ai-draft");
    pack.provenance = Some(ProvenanceSummary {
        recent_events: (0..5)
            .map(|i| EventSummary { event_action: format!("a{}", i), timestamp: "t".to_string(), agent_id: None })
            .collect(),
        evidence_count: 7,
        source: "s".to_string(),
    });
    pack.inter = Some(InterContext {
        bonds: vec![],
        resonances: (0..4)
            .map(|i| ResonanceSummary { partner_id: format!("p{}", i), resonance: 0.1, interpretation: "x".to_string() })
            .collect(),
    });
    let pack = apply_token_budget(pack);
    assert_eq!(pack.provenance.as_ref().unwrap().recent_events.len(), 3);
    assert_eq!(pack.provenance.as_ref().unwrap().evidence_count, 7);
    assert_eq!(pack.inter.as_ref().unwrap().resonances.len(), 3);
}

#[test]
fn full_prompt_block_sections() {
    let mut pack: ContextPack<String> = identity_pack("H", "canonical");
    pack.scale_code = Some("S40".to_string());
    pack.inter = Some(InterContext {
        bonds: vec![BondSummary {
            edge_type: "EVIDENCES".to_string(),
            target_id: "t".to_string(),
            target_name: "Target".to_string(),
            target_type: "telos".to_string(),
            weight: "1.0".to_string(),
        }],
        resonances: vec![],
    });
    pack.extra = Some(ExtraContext {
        parent_chain: vec![ParentSummary {
            holon_id: "p".to_string(),
            name: "Parent".to_string(),
            node_type: "telos".to_string(),
            scale_code: None,
        }],
        sub_holons: vec![SubHolonSummary { holon_id: "c".to_string(), name: "Child".to_string(), node_type: "action".to_string() }],
        great_way: Some(GreatWaySummary {
            greater_phase: "ascent".to_string(),
            significator: "0.10".to_string(),
            great_way: "0.20".to_string(),
            transformation_pressure: "0.35".to_string(),
            octave_count: 2,
        }),
    });
    pack.analogues = vec![Analogue {
        holon_id: "a".to_string(),
        name: "Ana".to_string(),
        node_type: "observation".to_string(),
        scale_code: None,
        type_class: "sharer".to_string(),
        resonance: "0.812".to_string(),
    }];
    pack.provenance = Some(ProvenanceSummary {
        recent_events: vec![EventSummary { event_action: "node_created".to_string(), timestamp: "t0".to_string(), agent_id: None }],
        evidence_count: 3,
        source: "manual".to_string(),
    });
    let md = pack.to_prompt_block();
    assert!(md.contains("- **Scale**: S40\n"));
    assert!(md.contains("### Bonds\n\n- EVIDENCES → Target (telos)\n\n"));
    assert!(!md.contains("Resonance Partners"));
    assert!(md.contains("### Parent Chain\n\n- Parent (telos)\n\n"));
    assert!(md.contains("### Sub-holons\n\n- Child (action)\n\n"));
    assert!(md.contains("### Great Way Trajectory\n\n- Phase: ascent\n- Octave: 2\n- Pressure: 0.35\n\n"));
    assert!(md.contains("- Ana (observation) — type_class=sharer, R=0.812\n"));
    assert!(md.ends_with("### Provenance\n\n- Source: manual\n- Evidence count: 3\n- Recent events:\n  - node_created (t0)\n\n"));
}
