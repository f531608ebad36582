use tdg_rust::json::{truncate_json_strings, Json};
use tdg_rust::output::truncate_str;

#[test]
fn test_truncate_str_short() {
    let result = truncate_str("hello", 10);
    assert_eq!(result, "hello");
}

#[test]
fn test_truncate_str_long() {
    let result = truncate_str("hello world this is a long string", 10);
    assert!(result.contains("..."));
    assert!(result.contains("chars total"));
}

#[test]
fn truncate_str_exact_text() {
    let result = truncate_str("hello world this is a long string", 10);
    assert_eq!(result, "hello worl...\n  ... (truncated, 33 chars total)");
    assert_eq!(truncate_str("abc", 3), "abc");
    assert_eq!(truncate_str("abcd", 0), "...\n  ... (truncated, 4 chars total)");
}

#[test]
fn truncate_str_counts_characters_not_bytes() {
    let result = truncate_str("ααααβ", 4);
    assert_eq!(result, "αααα...\n  ... (truncated, 5 chars total)");
}

fn obj(members: Vec<(&str, Json)>) -> Json {
    Json::Object(members.into_iter().map(|(k, v)| (k.to_string(), v)).collect())
}

fn text(s: &str) -> Json {
    Json::Str(s.to_string())
}

fn as_text(j: &Json) -> &str {
    match j {
        Json::Str(s) => s.as_str(),
        other => panic!("not a string: {:?}", other),
    }
}

fn member<'a>(j: &'a Json, key: &str) -> &'a Json {
    match j {
        Json::Object(ms) => &ms.iter().find(|(k, _)| k == key).unwrap().1,
        other => panic!("not an object: {:?}", other),
    }
}

#[test]
fn test_truncate_json_strings_short() {
    let val = obj(vec![("name", text("hello")), ("count", Json::Number("42".to_string()))]);
    let result = truncate_json_strings(&val, 100);
    assert_eq!(format!("{:?}", result), format!("{:?}", val));
}

#[test]
fn test_truncate_json_strings_long() {
    let long_text = "a".repeat(600);
    let val = obj(vec![("body", text(&long_text)), ("title", text("short"))]);
    let result = truncate_json_strings(&val, 500);
    let body = as_text(member(&result, "body"));
    assert!(body.contains("truncated"));
    assert!(body.contains("600 chars total"));
    assert_eq!(as_text(member(&result, "title")), "short");
}

#[test]
fn test_truncate_json_strings_nested() {
    let long_text = "b".repeat(700);
    let val = obj(vec![
        ("nested", obj(vec![("body", text(&long_text))])),
        ("other", Json::Array(vec![text(&"c".repeat(600))])),
    ]);
    let result = truncate_json_strings(&val, 500);
    assert!(as_text(member(member(&result, "nested"), "body")).contains("truncated"));
    match member(&result, "other") {
        Json::Array(items) => assert!(as_text(&items[0]).contains("truncated")),
        other => panic!("not an array: {:?}", other),
    }
}

#[test]
fn truncation_counts_characters() {
    // Two two-byte characters are within a limit of three characters.
    let r = truncate_json_strings(&text("éé"), 3);
    assert_eq!(as_text(&r), "éé");
    // Six characters (twelve bytes) over a limit of four.
    let r = truncate_json_strings(&text("éééééé"), 4);
    assert_eq!(as_text(&r), "éééé... (truncated, 6 chars total)");
    let r = truncate_json_strings(&text("abcdef"), 3);
    assert_eq!(as_text(&r), "abc... (truncated, 6 chars total)");
    let r = truncate_json_strings(&Json::Bool(true), 0);
    assert!(matches!(r, Json::Bool(true)));
}
