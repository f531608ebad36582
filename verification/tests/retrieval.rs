use tdg_rust::retrieval::parse_entry_name;

#[test]
fn parse_entry_name_with_delimiter() {
    let (id, label) = parse_entry_name("abc-123||Test Node");
    assert_eq!(id, "abc-123");
    assert_eq!(label, "Test Node");
}

#[test]
fn parse_entry_name_without_delimiter() {
    let (id, label) = parse_entry_name("bare-id");
    assert_eq!(id, "bare-id");
    assert_eq!(label, "");
}

#[test]
fn parse_entry_name_empty() {
    let (id, label) = parse_entry_name("");
    assert_eq!(id, "");
    assert_eq!(label, "");
}

#[test]
fn parse_entry_name_multiple_delimiters() {
    let (id, label) = parse_entry_name("a||b||c");
    assert_eq!(id, "a");
    assert_eq!(label, "b||c");
}

#[test]
fn parse_entry_name_roundtrip_and_trailing_bar() {
    let (id, label) = parse_entry_name(&format!("{}||{}", "n42", "Connected"));
    assert_eq!((id.as_str(), label.as_str()), ("n42", "Connected"));
    // An ID ending with '|' is not recovered: the first delimiter starts inside it.
    let (id, label) = parse_entry_name("a|||x");
    assert_eq!((id.as_str(), label.as_str()), ("a", "|x"));
}

#[test]
fn lcg_expansion_gives_known_mantissas() {
    assert_eq!(
        tdg_rust::retrieval::lcg_mantissas(0, 3),
        vec![704440937934064u64, 916020997953357, 5452267780427344]
    );
    assert_eq!(tdg_rust::retrieval::lcg_mantissas(12345, 2), vec![986996338168104u64, 2390378239609466]);
    assert!(tdg_rust::retrieval::lcg_mantissas(7, 0).is_empty());
}

#[test]
fn text_mantissas_are_deterministic_and_distinguish_texts() {
    let a = tdg_rust::retrieval::text_mantissas("hello world", 1024);
    let b = tdg_rust::retrieval::text_mantissas("hello world", 1024);
    let c = tdg_rust::retrieval::text_mantissas("goodbye world", 1024);
    assert_eq!(a.len(), 1024);
    assert_eq!(a, b);
    assert_ne!(a, c);
    assert!(a.iter().all(|m| *m < (1u64 << 53)));
}
