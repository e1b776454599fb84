use request_reporter::buffer::ReportBuffer;
use request_reporter::report::{Report, Timestamp};

fn record(id: &str, status_code: u16) -> Report {
    Report {
        id: id.to_string(),
        timestamp: Timestamp { secs: 1, nanos: 2 },
        operation_name: "Q".to_string(),
        client_name: "web".to_string(),
        client_version: "1".to_string(),
        status_code,
    }
}

#[test]
fn new_buffer_is_empty() {
    let buffer = ReportBuffer::new();
    assert_eq!(buffer.len(), 0);
    assert!(buffer.is_empty());
    assert!(buffer.records().is_empty());
    assert!(buffer.get(&"x".to_string()).is_none());
}

#[test]
fn insert_keeps_one_record_for_each_id() {
    let mut buffer = ReportBuffer::new();
    buffer.insert(record("a", 1));
    buffer.insert(record("b", 2));
    buffer.insert(record("c", 3));
    assert_eq!(buffer.len(), 3);
    assert!(!buffer.is_empty());
    assert_eq!(buffer.get(&"a".to_string()).unwrap().status_code, 1);
    assert_eq!(buffer.get(&"b".to_string()).unwrap().status_code, 2);
    assert_eq!(buffer.get(&"c".to_string()).unwrap().status_code, 3);
    assert!(buffer.get(&"d".to_string()).is_none());
}

#[test]
fn insert_under_a_held_id_replaces_the_record() {
    let mut buffer = ReportBuffer::new();
    buffer.insert(record("x", 0));
    buffer.insert(record("y", 7));
    buffer.insert(record("x", 404));
    assert_eq!(buffer.len(), 2);
    assert_eq!(buffer.get(&"x".to_string()).unwrap().status_code, 404);
    assert_eq!(buffer.get(&"y".to_string()).unwrap().status_code, 7);
    let ids: Vec<String> = buffer.records().iter().map(|r| r.id.clone()).collect();
    assert_eq!(ids, vec!["x".to_string(), "y".to_string()]);
}

#[test]
fn many_inserts_under_one_id_leave_the_last() {
    let mut buffer = ReportBuffer::new();
    for status_code in 0..50u16 {
        buffer.insert(record("same", status_code));
    }
    assert_eq!(buffer.len(), 1);
    assert_eq!(buffer.get(&"same".to_string()).unwrap().status_code, 49);
}

#[test]
fn empty_id_is_an_id_like_any_other() {
    let mut buffer = ReportBuffer::new();
    buffer.insert(record("", 1));
    buffer.insert(record("", 2));
    assert_eq!(buffer.len(), 1);
    assert_eq!(buffer.get(&String::new()).unwrap().status_code, 2);
}

#[test]
fn clear_empties_the_buffer() {
    let mut buffer = ReportBuffer::new();
    buffer.insert(record("a", 1));
    buffer.insert(record("b", 2));
    buffer.clear();
    assert_eq!(buffer.len(), 0);
    assert!(buffer.is_empty());
    assert!(buffer.get(&"a".to_string()).is_none());
    buffer.insert(record("a", 3));
    assert_eq!(buffer.len(), 1);
}
