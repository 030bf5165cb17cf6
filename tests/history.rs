use shaggy::history::{HistoryRecord, HistoryStore};

fn rec(key: &str, label: &str) -> HistoryRecord {
    HistoryRecord { key: key.to_string(), label: label.to_string(), recorded_at: "2024-05-01T10:00:00+00:00".to_string() }
}

#[test]
fn recording_a_key_twice_keeps_one_row() {
    let mut h = HistoryStore::new();
    assert!(!h.contains_key("52772"));
    assert!(h.record(rec("52772", "Teriyaki Chicken")));
    assert!(h.contains_key("52772"));
    assert_eq!(h.len(), 1);
    assert!(!h.record(rec("52772", "Teriyaki Chicken again")));
    assert_eq!(h.len(), 1);
    assert!(h.contains_key("52772"));
}

#[test]
fn distinct_keys_each_recorded() {
    let mut h = HistoryStore::new();
    assert!(h.record(rec("a", "A")));
    assert!(h.record(rec("b", "B")));
    assert!(!h.contains_key("c"));
    assert!(!h.contains_key("A"));
    assert_eq!(h.len(), 2);
}

#[test]
fn loading_drops_later_duplicates() {
    let rows = vec![rec("x", "1"), rec("y", "2"), rec("x", "3")];
    let h = HistoryStore::from_records(&rows);
    assert_eq!(h.len(), 2);
    assert!(h.contains_key("x"));
    assert!(h.contains_key("y"));
    assert!(HistoryStore::from_records(&Vec::new()).len() == 0);
}
