use lynx::api_debug::{response_headers_json, stamp, ExecuteApiDebugRequest, HttpMethod};
use lynx::common::{header_table_with_fallback, BodyUtils};
use lynx::json::{text_object, JsonValue};
use lynx::mock::{mock_reply, MockBody, MockPath, MockReply};
use lynx::types::{CaptureRule, RequestRule};
use lynx::validator::rule_id_for_update;

fn header_map() -> http::HeaderMap {
    let mut map = http::HeaderMap::new();
    map.insert("content-type", http::HeaderValue::from_static("text/plain"));
    map.append("x-multi", http::HeaderValue::from_static("first"));
    map.append("x-multi", http::HeaderValue::from_static("second"));
    map.insert("x-bin", http::HeaderValue::from_bytes(&[0x80]).unwrap());
    map
}

fn str_member<'a>(v: &'a JsonValue, key: &str) -> Option<&'a str> {
    v.get(key).and_then(|m| m.as_str())
}

#[test]
fn clock_readings_become_stamps() {
    assert_eq!(stamp(Some(1_700_000_000)), 1_700_000_000);
    assert_eq!(stamp(None), 0);
}

#[test]
fn display_of_valid_text_is_the_decoded_text() {
    assert_eq!(BodyUtils::truncate_for_display(b"Hello, world!", 5), "Hello... [truncated, total 13 bytes]");
    assert_eq!(BodyUtils::truncate_for_display(b"Hello", 50), "Hello");
    assert_eq!(BodyUtils::truncate_for_display(&[0u8, 1, 2, 255, 254], 100), "[Binary data, 5 bytes]");
}

#[test]
fn a_rule_needs_an_id_to_be_updated() {
    let mut rule = RequestRule {
        id: None,
        name: "r".to_string(),
        description: None,
        enabled: true,
        priority: 1,
        capture: CaptureRule::simple("*"),
        handlers: vec![],
    };
    let err = rule_id_for_update(&rule).unwrap_err();
    assert_eq!(err.message(), "Rule validation failed: Rule ID is required for update");
    rule.id = Some(42);
    assert_eq!(rule_id_for_update(&rule).unwrap(), 42);
}

#[test]
fn header_tables_keep_every_name_with_a_fallback() {
    let table = header_table_with_fallback(&header_map(), "invalid");
    assert_eq!(table.get("x-multi"), Some(&"second".to_string()));
    assert_eq!(table.get("x-bin"), Some(&"invalid".to_string()));
    assert_eq!(table.get("content-type"), Some(&"text/plain".to_string()));
    assert_eq!(table.len(), 3);
}

#[test]
fn response_headers_become_a_json_object_of_strings() {
    let json = response_headers_json(&header_map());
    assert_eq!(str_member(&json, "x-multi"), Some("second"));
    assert_eq!(str_member(&json, "x-bin"), Some(""));
    assert_eq!(str_member(&json, "content-type"), Some("text/plain"));
    let obj = text_object(&[("a".to_string(), "1".to_string())]);
    assert_eq!(str_member(&obj, "a"), Some("1"));
}

#[test]
fn an_executed_request_is_saved_with_its_headers_as_json() {
    let exec = ExecuteApiDebugRequest {
        name: "x".to_string(),
        method: HttpMethod::Post,
        url: "https://example.com".to_string(),
        headers: Some(vec![("accept".to_string(), "*/*".to_string())]),
        body: Some("{}".to_string()),
        content_type: Some("application/json".to_string()),
        timeout: Some(5),
    };
    let create = exec.create_request();
    assert_eq!(create.name, "x");
    assert_eq!(create.method, HttpMethod::Post);
    assert_eq!(create.timeout, Some(5));
    assert_eq!(create.body, Some("{}".to_string()));
    assert_eq!(str_member(create.headers.as_ref().unwrap(), "accept"), Some("*/*"));
}

#[test]
fn mock_routes_answer_as_the_server_does() {
    let map = header_map();
    match mock_reply(MockPath::Hello, "", &map) {
        MockReply::Answer { status, body: MockBody::Text(t), content_type, delay_secs, .. } => {
            assert_eq!((status, t.as_str(), content_type, delay_secs), (200, "Hello, World!", None, 0));
        },
        other => panic!("unexpected {:?}", other),
    }
    match mock_reply(MockPath::NotFound, "", &map) {
        MockReply::Answer { status, body: MockBody::Empty, .. } => assert_eq!(status, 404),
        other => panic!("unexpected {:?}", other),
    }
    match mock_reply(MockPath::Status, "code=404", &map) {
        MockReply::Answer { status, body: MockBody::Text(t), .. } => {
            assert_eq!((status, t.as_str()), (404, "Status: 404"));
        },
        other => panic!("unexpected {:?}", other),
    }
    match mock_reply(MockPath::Status, "code=42", &map) {
        MockReply::Answer { status, body: MockBody::Text(t), .. } => {
            assert_eq!((status, t.as_str()), (200, "Status: 42"));
        },
        other => panic!("unexpected {:?}", other),
    }
    match mock_reply(MockPath::Echo, "", &map) {
        MockReply::Answer { status, body: MockBody::RequestBody, content_type, .. } => {
            assert_eq!((status, content_type), (200, Some(b"text/plain".to_vec())));
        },
        other => panic!("unexpected {:?}", other),
    }
    match mock_reply(MockPath::Headers, "", &map) {
        MockReply::Answer { status, body: MockBody::Json(doc), content_type, .. } => {
            assert_eq!(status, 200);
            assert_eq!(content_type, Some(b"application/json".to_vec()));
            let headers = doc.get("headers").unwrap();
            assert_eq!(str_member(headers, "x-multi"), Some("second"));
            assert_eq!(str_member(headers, "x-bin"), Some("invalid"));
        },
        other => panic!("unexpected {:?}", other),
    }
    match mock_reply(MockPath::Slow, "", &map) {
        MockReply::Answer { delay_secs, body: MockBody::Text(t), .. } => assert_eq!((delay_secs, t.as_str()), (3, "Slow response")),
        other => panic!("unexpected {:?}", other),
    }
    assert!(matches!(mock_reply(MockPath::Websocket, "", &map), MockReply::WebsocketUpgrade));
}
