use request_reporter::request::{
    handler, ContextEntry, ContextValue, CoprocessorRequest, CoprocessorRequestContext, Header,
    Stage,
};

fn callback(id: &str, version: u16, stage: Stage) -> CoprocessorRequest {
    CoprocessorRequest {
        id: id.to_string(),
        version,
        stage,
        headers: None,
        context: None,
        status_code: None,
    }
}

#[test]
fn acknowledgement_echoes_the_callback() {
    let response = handler(&callback("r1", 1, Stage::RouterRequest));
    assert_eq!(response.status, 200);
    assert_eq!(response.body.id, "r1");
    assert_eq!(response.body.version, 1);
    assert_eq!(response.body.stage, Stage::RouterRequest);
    assert_eq!(response.body.control, "continue");
}

#[test]
fn acknowledgement_of_a_response_stage_callback() {
    let mut request = callback("abc-42", 65535, Stage::RouterResponse);
    request.status_code = Some(503);
    request.headers = Some(vec![Header {
        name: "accept".to_string(),
        values: vec!["a".to_string(), "b".to_string()],
    }]);
    request.context = Some(CoprocessorRequestContext {
        entries: vec![ContextEntry {
            key: "operation_name".to_string(),
            value: ContextValue::Text("Q".to_string()),
        }],
    });
    let response = handler(&request);
    assert_eq!(response.status, 200);
    assert_eq!(response.body.id, "abc-42");
    assert_eq!(response.body.version, 65535);
    assert_eq!(response.body.stage, Stage::RouterResponse);
    assert_eq!(response.body.control, "continue");
}

#[test]
fn acknowledgement_keeps_an_empty_id() {
    let response = handler(&callback("", 0, Stage::RouterRequest));
    assert_eq!(response.status, 200);
    assert_eq!(response.body.id, "");
    assert_eq!(response.body.version, 0);
}

#[test]
fn stage_names_are_the_enumerator_names() {
    assert_eq!(Stage::RouterRequest.name(), "RouterRequest");
    assert_eq!(Stage::RouterResponse.name(), "RouterResponse");
}

#[test]
fn context_text_finds_strings_only() {
    let context = CoprocessorRequestContext {
        entries: vec![
            ContextEntry { key: "a".to_string(), value: ContextValue::Text("x".to_string()) },
            ContextEntry { key: "b".to_string(), value: ContextValue::Other },
        ],
    };
    assert_eq!(context.text(&"a".to_string()), Some("x".to_string()));
    assert_eq!(context.text(&"b".to_string()), None);
    assert_eq!(context.text(&"c".to_string()), None);
}

#[test]
fn context_text_takes_the_last_entry_of_a_name() {
    let context = CoprocessorRequestContext {
        entries: vec![
            ContextEntry { key: "a".to_string(), value: ContextValue::Text("old".to_string()) },
            ContextEntry { key: "a".to_string(), value: ContextValue::Text("new".to_string()) },
        ],
    };
    assert_eq!(context.text(&"a".to_string()), Some("new".to_string()));
    let hidden = CoprocessorRequestContext {
        entries: vec![
            ContextEntry { key: "a".to_string(), value: ContextValue::Text("old".to_string()) },
            ContextEntry { key: "a".to_string(), value: ContextValue::Other },
        ],
    };
    assert_eq!(hidden.text(&"a".to_string()), None);
}

#[test]
fn request_without_context_has_no_text_attribute() {
    let request = callback("r", 1, Stage::RouterRequest);
    assert_eq!(request.text_attribute(&"operation_name".to_string()), None);
}
