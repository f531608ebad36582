use tdg_rust::flow::{
    contributes_to_polarity, downward_edge_types, edge_flow_rate, intrinsic_signature,
    intrinsic_signatures, quadrant_modulator, reversed_downward_types,
};

#[test]
fn quadrant_modulators_present() {
    assert!(quadrant_modulator("UL", "eros").is_some());
    assert!(quadrant_modulator("UR", "eros").is_some());
    assert!(quadrant_modulator("LL", "eros").is_some());
    assert!(quadrant_modulator("LR", "eros").is_some());

    // Check all four drives present in each quadrant
    for quadrant in &["UL", "UR", "LL", "LR"] {
        assert!(quadrant_modulator(quadrant, "eros").is_some(), "Missing eros in {quadrant}");
        assert!(quadrant_modulator(quadrant, "agape").is_some(), "Missing agape in {quadrant}");
        assert!(quadrant_modulator(quadrant, "agency").is_some(), "Missing agency in {quadrant}");
        assert!(quadrant_modulator(quadrant, "communion").is_some(), "Missing communion in {quadrant}");
    }
}

#[test]
fn quadrant_modulator_values() {
    assert_eq!(quadrant_modulator("UR", "agency"), Some(85));
    assert_eq!(quadrant_modulator("LR", "eros"), Some(65));
    assert_eq!(quadrant_modulator("XX", "eros"), None);
    assert_eq!(quadrant_modulator("UL", "chaos"), None);
}

#[test]
fn contributes_to_polarity_filter() {
    assert!(contributes_to_polarity("DECOMPOSES_TO"));
    assert!(contributes_to_polarity("SUPPORTS"));
    assert!(contributes_to_polarity("ENABLES"));
    assert!(contributes_to_polarity("REALIZES"));
    assert!(contributes_to_polarity("DEPENDS_ON"));
    assert!(!contributes_to_polarity("BLOCKS"));
    assert!(!contributes_to_polarity("CONTRADICTS"));
    assert!(!contributes_to_polarity("MENTIONS"));
    assert!(!contributes_to_polarity("REFERENCES"));
    assert!(!contributes_to_polarity("CONTEXT"));
}

#[test]
fn edge_flow_rates() {
    // rates are in tenths
    assert_eq!(edge_flow_rate("DECOMPOSES_TO").0, 8);
    assert_eq!(edge_flow_rate("BLOCKS").0, -5);
    assert_eq!(edge_flow_rate("CONTRADICTS").0, -7);
    assert_eq!(edge_flow_rate("SUPPORTS").0, 8);
    assert_eq!(edge_flow_rate("RELATES_TO").0, 3);
    assert_eq!(edge_flow_rate("DECOMPOSES_TO").1, 8);
    assert_eq!(edge_flow_rate("BLOCKS").1, -5);
}

#[test]
fn blocks_contradicts_negative_flow() {
    let (blocks_rate, _) = edge_flow_rate("BLOCKS");
    let (contradicts_rate, _) = edge_flow_rate("CONTRADICTS");
    assert!(blocks_rate < 0, "BLOCKS rate should be negative");
    assert!(contradicts_rate < 0, "CONTRADICTS rate should be negative");
    assert!(contradicts_rate.abs() > blocks_rate.abs());
}

#[test]
fn edge_flow_rate_default_and_groups() {
    assert_eq!(edge_flow_rate("PRECEDES"), (6, 6));
    assert_eq!(edge_flow_rate("MENTIONS"), (3, 3));
    assert_eq!(edge_flow_rate("SOMETHING_ELSE"), (4, 4));
}

#[test]
fn missing_intrinsic_signatures_added() {
    let value = intrinsic_signature("value").unwrap();
    assert!(value.eros.0 > 0, "value eros should be positive");
    let bond = intrinsic_signature("bond").unwrap();
    assert!(bond.agape.0 > 0, "bond agape should be positive");
    let narrative = intrinsic_signature("narrative").unwrap();
    assert!(narrative.eros.0 > 0, "narrative eros should be positive");
}

#[test]
fn intrinsic_signature_values() {
    let telos = intrinsic_signature("telos").unwrap();
    assert_eq!(telos.eros, (60, 20));
    assert_eq!(telos.communion, (50, 20));
    let value = intrinsic_signature("value").unwrap();
    assert_eq!(value.eros, (25, 10));
    assert_eq!(value.agape, (30, 15));
    assert!(intrinsic_signature("unknown_type").is_none());
    assert_eq!(intrinsic_signatures().len(), 21);
}

#[test]
fn edge_type_lists() {
    assert_eq!(
        downward_edge_types(),
        vec!["DECOMPOSES_TO", "ENABLES", "REALIZES", "SUPPORTS", "DEPENDS_ON", "CONTEXT", "BLOCKS", "CONTRADICTS"]
    );
    assert_eq!(reversed_downward_types(), vec!["SUPPORTS", "ENABLES", "REALIZES"]);
}

#[test]
fn aggregation_parents_are_distinct_polarity_sources() {
    let incoming = vec![
        ("p1".to_string(), "SUPPORTS".to_string()),
        ("p2".to_string(), "MENTIONS".to_string()),
        ("p1".to_string(), "ENABLES".to_string()),
        ("p3".to_string(), "DEPENDS_ON".to_string()),
        ("p2".to_string(), "DECOMPOSES_TO".to_string()),
    ];
    assert_eq!(
        tdg_rust::flow::aggregation_parents(&incoming),
        vec!["p1".to_string(), "p3".to_string(), "p2".to_string()]
    );
    assert!(tdg_rust::flow::aggregation_parents(&vec![]).is_empty());
}
