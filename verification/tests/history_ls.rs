use tmj_app::history::{DialogueRecord, HistoryLs, HISTORY_CAPACITY};

fn record(id: usize, speaker: &str, content: &str) -> DialogueRecord {
    DialogueRecord { id, speaker: speaker.into(), content: content.into() }
}

#[test]
fn test_push_and_evict() {
    let mut history = HistoryLs::new(3);
    history.push(record(1, "Alice", "Hi"));
    history.push(record(2, "Bob", "Hello"));
    history.push(record(3, "Alice", "How are you?"));
    history.push(record(4, "Bob", "Fine"));

    assert_eq!(history.len(), 3);
    let records: Vec<_> = history.records().iter().map(|r| r.id).collect();
    assert_eq!(records, vec![2, 3, 4]);
}

#[test]
fn test_global_history() {
    let mut history = HistoryLs::new(HISTORY_CAPACITY);
    history.push(record(10, "System", "Start"));
    assert_eq!(history.len(), 1);
}

#[test]
fn new_history_is_empty() {
    let history = HistoryLs::new(5);
    assert!(history.is_empty());
    assert_eq!(history.len(), 0);
    assert!(history.records().is_empty());
}

#[test]
fn history_of_capacity_zero_keeps_nothing() {
    let mut history = HistoryLs::new(0);
    history.push(record(1, "A", "a"));
    history.push(record(2, "B", "b"));
    assert_eq!(history.len(), 0);
    assert!(history.is_empty());
}

#[test]
fn history_never_exceeds_its_capacity() {
    for cap in 0..6 {
        let mut history = HistoryLs::new(cap);
        for i in 0..10 {
            history.push(record(i, "S", "x"));
            assert!(history.len() <= cap);
        }
    }
}

#[test]
fn history_keeps_the_newest_in_order() {
    let mut history = HistoryLs::new(HISTORY_CAPACITY);
    for i in 0..250 {
        history.push(record(i, "S", "line"));
    }
    assert_eq!(history.len(), HISTORY_CAPACITY);
    let ids: Vec<usize> = history.records().iter().map(|r| r.id).collect();
    let expected: Vec<usize> = (150..250).collect();
    assert_eq!(ids, expected);
}

#[test]
fn history_keeps_speaker_and_content() {
    let mut history = HistoryLs::new(2);
    history.push(record(7, "Alice", "Hi"));
    let r = &history.records()[0];
    assert_eq!(r.speaker, "Alice");
    assert_eq!(r.content, "Hi");
}
