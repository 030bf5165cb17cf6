use shaggy::history::{HistoryRecord, HistoryStore};
use shaggy::selector::{dedup_key, select_unseen, CandidateItem, DedupSelector, Step, MAX_ATTEMPTS};

fn item(key: &str) -> CandidateItem {
    CandidateItem { id: Some(key.to_string()), secondary_id: None, label: format!("Meal {}", key) }
}

fn history_of(keys: &[&str]) -> HistoryStore {
    let mut h = HistoryStore::new();
    for k in keys {
        h.record(HistoryRecord {
            key: k.to_string(),
            label: k.to_string(),
            recorded_at: "2024-01-01T00:00:00+00:00".to_string(),
        });
    }
    h
}

#[test]
fn repeat_after_budget_without_looking_further() {
    let cands: Vec<CandidateItem> = ["A", "A", "A", "A", "A", "B"].iter().map(|k| item(k)).collect();
    let h = history_of(&["A"]);
    let s = select_unseen(&cands, &h, 5).expect("a selection");
    assert_eq!(s.index, 4);
    assert_eq!(s.key, "A");
    assert!(s.is_repeat);
}

#[test]
fn first_unseen_key_is_chosen() {
    let cands: Vec<CandidateItem> = ["A", "C", "B", "D"].iter().map(|k| item(k)).collect();
    let h = history_of(&["A", "C"]);
    let s = select_unseen(&cands, &h, MAX_ATTEMPTS).expect("a selection");
    assert_eq!(s.index, 2);
    assert_eq!(s.key, "B");
    assert!(!s.is_repeat);
}

#[test]
fn unseen_first_candidate_taken_at_once() {
    let cands = vec![item("Z"), item("A")];
    let h = history_of(&["A"]);
    let s = select_unseen(&cands, &h, 5).unwrap();
    assert_eq!((s.index, s.key.as_str(), s.is_repeat), (0, "Z", false));
}

#[test]
fn all_seen_repeats_last_examined() {
    let cands: Vec<CandidateItem> = ["A", "B", "A", "C", "B", "D", "E"].iter().map(|k| item(k)).collect();
    let h = history_of(&["A", "B", "C"]);
    let s = select_unseen(&cands, &h, 5).unwrap();
    assert_eq!(s.index, 4);
    assert_eq!(s.key, "B");
    assert!(s.is_repeat);
}

#[test]
fn catalog_running_out_gives_nothing() {
    let cands = vec![item("A"), item("A")];
    let h = history_of(&["A"]);
    assert!(select_unseen(&cands, &h, 5).is_none());
    assert!(select_unseen(&Vec::new(), &h, 5).is_none());
}

#[test]
fn zero_budget_gives_nothing() {
    let cands = vec![item("B")];
    assert!(select_unseen(&cands, &HistoryStore::new(), 0).is_none());
}

#[test]
fn unseen_beyond_budget_is_not_reached() {
    let cands: Vec<CandidateItem> = ["A", "A", "B"].iter().map(|k| item(k)).collect();
    let h = history_of(&["A"]);
    let s = select_unseen(&cands, &h, 2).unwrap();
    assert_eq!((s.index, s.is_repeat), (1, true));
}

#[test]
fn selector_steps() {
    let mut sel = DedupSelector::new(2);
    assert!(sel.wants_candidate());
    assert_eq!(sel.offer(Some(true)), Step::Retry);
    assert_eq!(sel.attempts, 1);
    assert_eq!(sel.offer(Some(true)), Step::Take { repeat: true });
    assert!(!sel.wants_candidate());
    let mut fresh = DedupSelector::new(5);
    assert_eq!(fresh.offer(Some(false)), Step::Take { repeat: false });
    assert_eq!(fresh.attempts, 0);
    assert_eq!(fresh.offer(None), Step::Stop);
    assert_eq!(fresh.attempts, 0);
}

#[test]
fn dedup_key_prefers_identifier_then_secondary_then_label() {
    let full = CandidateItem { id: Some("52772".into()), secondary_id: Some("99".into()), label: "Teriyaki".into() };
    assert_eq!(dedup_key(&full), "52772");
    let empty_id = CandidateItem { id: Some(String::new()), secondary_id: Some("99".into()), label: "Teriyaki".into() };
    assert_eq!(dedup_key(&empty_id), "99");
    let no_ids = CandidateItem { id: None, secondary_id: Some(String::new()), label: "Teriyaki".into() };
    assert_eq!(dedup_key(&no_ids), "Teriyaki");
    let none = CandidateItem { id: None, secondary_id: None, label: "Soup".into() };
    assert_eq!(dedup_key(&none), "Soup");
}
