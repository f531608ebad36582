use tdg_rust::journal::{
    event_id_from_uuid, gen_event_id, replay_action, replayed_edge_type, replayed_node_labels, str_le,
    JournalEntry, JournalLog, ReplayAction,
};

fn entry(id: &str, action: &str, ts: &str) -> JournalEntry {
    JournalEntry::new(id, action, ts, None, None, None, None, None)
}

#[test]
fn journal_append_and_count() {
    let mut journal = JournalLog::new();
    assert_eq!(journal.count(), 0);
    let id = gen_event_id();
    assert!(id.starts_with("evt:"));
    journal.record(JournalEntry::new(&id, "node_created", "t", Some("n001"), None, None, None, None));
    assert_eq!(journal.count(), 1);
    assert_eq!(journal.last_event_id(), Some(id));
}

#[test]
fn journal_stream_after() {
    let mut journal = JournalLog::new();
    let id1 = gen_event_id();
    journal.record(entry(&id1, "a", "t1"));
    journal.record(entry(&gen_event_id(), "b", "t2"));
    journal.record(entry(&gen_event_id(), "c", "t3"));
    let after = journal.stream_after(Some(&id1), None);
    assert_eq!(after.len(), 2);
    assert_eq!(after[0].event_action, "b");
    assert_eq!(after[1].event_action, "c");
}

#[test]
fn stream_after_unknown_or_limited() {
    let mut journal = JournalLog::new();
    journal.record(entry("e1", "a", "t1"));
    journal.record(entry("e2", "b", "t2"));
    journal.record(entry("e3", "c", "t3"));
    assert_eq!(journal.stream_after(Some("nope"), None).len(), 3);
    assert_eq!(journal.stream_after(None, Some(2)).len(), 2);
    assert_eq!(journal.stream_after(Some("e3"), None).len(), 0);
    let tail = journal.stream_after(Some("e1"), Some(1));
    assert_eq!(tail.len(), 1);
    assert_eq!(tail[0].event_id, "e2");
}

#[test]
fn stream_up_to_compares_timestamps_as_text() {
    let mut journal = JournalLog::new();
    journal.record(entry("e1", "a", "2024-01-01T00:00:00Z"));
    journal.record(entry("e2", "b", "2024-03-01T00:00:00Z"));
    journal.record(entry("e3", "c", "2024-02-01T00:00:00Z"));
    let upto = journal.stream_up_to("2024-02-01T00:00:00Z");
    assert_eq!(upto.iter().map(|e| e.event_id.as_str()).collect::<Vec<_>>(), vec!["e1", "e3"]);
    assert!(str_le("abc", "abd"));
    assert!(str_le("ab", "abc"));
    assert!(!str_le("b", "abc"));
    assert!(str_le("", ""));
}

#[test]
fn a_corrupt_line_starts_the_journal_fresh() {
    let good = JournalLog::from_lines(vec![Some(entry("e1", "a", "t")), Some(entry("e2", "b", "t"))]);
    assert_eq!(good.count(), 2);
    let bad = JournalLog::from_lines(vec![Some(entry("e1", "a", "t")), None, Some(entry("e3", "c", "t"))]);
    assert_eq!(bad.count(), 0);
}

#[test]
fn new_entries_default_to_an_empty_payload() {
    let e = entry("e1", "a", "t");
    assert_eq!(e.payload, "{}");
    let d = e.duplicate();
    assert_eq!(d.event_id, "e1");
    assert_eq!(event_id_from_uuid("936da01f-9abd-4d9d-80c7-02af85c822a8"), "evt:936da01f-9ab");
}

#[test]
fn replay_dispatch() {
    assert_eq!(replay_action("node_created"), Some(ReplayAction::CreateNode));
    assert_eq!(replay_action("edge_created"), Some(ReplayAction::CreateEdge));
    assert_eq!(replay_action("node_archived"), Some(ReplayAction::DeleteNode));
    assert_eq!(replay_action("edge_deleted"), Some(ReplayAction::Nothing));
    assert_eq!(replay_action("stage_advanced"), Some(ReplayAction::RecordEvent));
    assert_eq!(replay_action("mystery"), None);
    assert_eq!(replayed_node_labels(None, Some("obs1")), ("observation".to_string(), "obs1".to_string()));
    assert_eq!(replayed_node_labels(Some("action"), None), ("action".to_string(), "replayed".to_string()));
    assert_eq!(replayed_edge_type(None), "RELATES_TO");
    assert_eq!(replayed_edge_type(Some("SUPPORTS")), "SUPPORTS");
}
