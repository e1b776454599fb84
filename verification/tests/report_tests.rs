use request_reporter::report::{Report, Timestamp};
use request_reporter::request::{
    ContextEntry, ContextValue, CoprocessorRequest, CoprocessorRequestContext, Stage,
};

fn text_entry(key: &str, value: &str) -> ContextEntry {
    ContextEntry { key: key.to_string(), value: ContextValue::Text(value.to_string()) }
}

fn callback_with(entries: Option<Vec<ContextEntry>>, status_code: Option<u16>) -> CoprocessorRequest {
    CoprocessorRequest {
        id: "r1".to_string(),
        version: 1,
        stage: Stage::RouterRequest,
        headers: None,
        context: entries.map(|entries| CoprocessorRequestContext { entries }),
        status_code,
    }
}

#[test]
fn report_takes_the_recognized_attributes() {
    let request = callback_with(
        Some(vec![
            text_entry("operation_name", "Q"),
            text_entry("apollo_telemetry::client_name", "web"),
            text_entry("apollo_telemetry::client_version", "1.2.3"),
            text_entry("something_else", "ignored"),
        ]),
        Some(200),
    );
    let at = Timestamp { secs: 1705322096, nanos: 789012345 };
    let report = Report::from_request(&request, at);
    assert_eq!(report.id, "r1");
    assert_eq!(report.timestamp, at);
    assert_eq!(report.operation_name, "Q");
    assert_eq!(report.client_name, "web");
    assert_eq!(report.client_version, "1.2.3");
    assert_eq!(report.status_code, 200);
}

#[test]
fn report_without_context_uses_the_fallbacks() {
    let request = callback_with(None, None);
    let report = Report::from_request(&request, Timestamp { secs: 0, nanos: 0 });
    assert_eq!(report.id, "r1");
    assert_eq!(report.operation_name, "Anonymous Operation");
    assert_eq!(report.client_name, "Unknown");
    assert_eq!(report.client_version, "Unknown");
    assert_eq!(report.status_code, 0);
}

#[test]
fn report_with_empty_context_uses_the_fallbacks() {
    let request = callback_with(Some(vec![]), Some(404));
    let report = Report::from_request(&request, Timestamp { secs: 0, nanos: 0 });
    assert_eq!(report.operation_name, "Anonymous Operation");
    assert_eq!(report.client_name, "Unknown");
    assert_eq!(report.client_version, "Unknown");
    assert_eq!(report.status_code, 404);
}

#[test]
fn report_uses_the_fallback_for_a_value_that_is_no_string() {
    let request = callback_with(
        Some(vec![
            ContextEntry { key: "operation_name".to_string(), value: ContextValue::Other },
            ContextEntry {
                key: "apollo_telemetry::client_name".to_string(),
                value: ContextValue::Other,
            },
            text_entry("apollo_telemetry::client_version", "9"),
        ]),
        Some(0),
    );
    let report = Report::from_request(&request, Timestamp { secs: 0, nanos: 0 });
    assert_eq!(report.operation_name, "Anonymous Operation");
    assert_eq!(report.client_name, "Unknown");
    assert_eq!(report.client_version, "9");
    assert_eq!(report.status_code, 0);
}

#[test]
fn report_keeps_an_empty_string_attribute() {
    let request = callback_with(Some(vec![text_entry("operation_name", "")]), None);
    let report = Report::from_request(&request, Timestamp { secs: 0, nanos: 0 });
    assert_eq!(report.operation_name, "");
}
