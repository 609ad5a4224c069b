use lynx::api_debug::{
    outcome_update, response_outcome, send_failure_outcome, total_pages, ApiDebugQueryParams, ApiDebugResponse,
    CaptureSwitch, CreateApiDebugRequest, ExecuteApiDebugRequest, HttpMethod, Model, RecordingStatus, RequestStatus,
    UpdateApiDebugRequest,
};
use lynx::json::JsonValue;

fn empty_update() -> UpdateApiDebugRequest {
    UpdateApiDebugRequest {
        name: None,
        method: None,
        url: None,
        headers: None,
        body: None,
        content_type: None,
        timeout: None,
        status: None,
        response_status: None,
        response_headers: None,
        response_body: None,
        response_time: None,
        error_message: None,
    }
}

#[test]
fn new_requests_are_pending_with_a_thirty_second_timeout() {
    let model = Model::new_request("Test API".to_string(), HttpMethod::Post, "https://api.example.com/test".to_string());
    assert_eq!(model.id, 0);
    assert_eq!(model.timeout, Some(30));
    assert_eq!(model.status, RequestStatus::Pending);
    assert!(!model.is_success());
    assert!(!model.is_failed());
    assert_eq!(model.created_at, model.updated_at);
    assert!(model.created_at > 0);
    assert_eq!(model.response_status_text(), "N/A");
    assert_eq!(model.formatted_response_time(), "N/A");
    assert_eq!(HttpMethod::default(), HttpMethod::Get);
    assert_eq!(RequestStatus::default(), RequestStatus::Pending);
}

#[test]
fn bodies_are_stored_as_bytes_and_read_back_as_text() {
    let mut model = Model::new_request("b".to_string(), HttpMethod::Get, "/".to_string());
    assert!(!model.is_body_text());
    model.set_body_from_string("{\"test\": \"data\"}".to_string());
    assert_eq!(model.get_body_as_string(), Some("{\"test\": \"data\"}".to_string()));
    assert!(model.is_body_text());
    model.set_body_from_bytes(vec![0xff, 0x00]);
    assert_eq!(model.get_body_as_string(), None);
    assert_eq!(model.get_body_as_bytes(), Some(&[0xff, 0x00][..]));
    model.set_response_body_from_string("ok".to_string());
    assert_eq!(model.get_response_body_as_string(), Some("ok".to_string()));
    assert!(model.is_response_body_text());
    model.set_response_body_from_bytes(vec![0xc3]);
    assert!(!model.is_response_body_text());
    assert_eq!(model.get_response_body_as_bytes(), Some(&[0xc3][..]));
    model.response_status = Some(404);
    model.response_time = Some(120);
    model.status = RequestStatus::Timeout;
    assert_eq!(model.response_status_text(), "404");
    assert_eq!(model.formatted_response_time(), "120ms");
    assert!(model.is_failed());
}

#[test]
fn creating_and_updating_entries() {
    let req = CreateApiDebugRequest {
        name: "Test API".to_string(),
        method: HttpMethod::Post,
        url: "https://api.example.com/test".to_string(),
        headers: Some(JsonValue::empty_object()),
        body: Some("{\"test\": \"data\"}".to_string()),
        content_type: Some("application/json".to_string()),
        timeout: Some(30),
    };
    let model = Model::from_create(req);
    assert_eq!(model.status, RequestStatus::Pending);
    assert_eq!(model.body, Some(b"{\"test\": \"data\"}".to_vec()));
    let created = model.created_at;
    let mut update = empty_update();
    update.name = Some("Updated Test".to_string());
    update.status = Some(RequestStatus::Success);
    update.response_body = Some("done".to_string());
    update.response_time = Some(1000);
    let updated = model.apply_update(update);
    assert_eq!(updated.name, "Updated Test");
    assert_eq!(updated.url, "https://api.example.com/test");
    assert_eq!(updated.status, RequestStatus::Success);
    assert_eq!(updated.response_body, Some(b"done".to_vec()));
    assert_eq!(updated.response_time, Some(1000));
    assert_eq!(updated.timeout, Some(30));
    assert_eq!(updated.created_at, created);
    assert!(updated.updated_at >= created);
    let response = ApiDebugResponse::from(updated);
    assert_eq!(response.body, Some("{\"test\": \"data\"}".to_string()));
    assert_eq!(response.response_body, Some("done".to_string()));
    assert_eq!(response.name, "Updated Test");
}

#[test]
fn pagination_defaults_and_limits() {
    let params = ApiDebugQueryParams { page: None, per_page: Some(250), method: None, status: None, search: None };
    assert_eq!(params.pagination(), (1, 100));
    let params = ApiDebugQueryParams { page: Some(3), per_page: None, method: None, status: None, search: None };
    assert_eq!(params.pagination(), (3, 20));
    assert_eq!(total_pages(25, 10), 3);
    assert_eq!(total_pages(0, 10), 0);
    assert_eq!(total_pages(30, 10), 3);
}

#[test]
fn execution_outcomes() {
    let ok = response_outcome(201, Ok("Status: 201".to_string()));
    assert_eq!(ok.status, RequestStatus::Success);
    assert_eq!(ok.response_status, Some(201));
    let not_found = response_outcome(404, Ok(String::new()));
    assert_eq!(not_found.status, RequestStatus::Failed);
    let unreadable = response_outcome(200, Err("broken body".to_string()));
    assert_eq!(unreadable.status, RequestStatus::Failed);
    assert_eq!(unreadable.response_body, None);
    assert_eq!(unreadable.error_message, Some("broken body".to_string()));
    let failed = send_failure_outcome("error sending request".to_string());
    assert_eq!(failed.response_status, None);
    let update = outcome_update(ok, None, 15);
    assert_eq!(update.status, Some(RequestStatus::Success));
    assert_eq!(update.response_time, Some(15));
    assert_eq!(update.name, None);
    let exec = ExecuteApiDebugRequest {
        name: "x".to_string(),
        method: HttpMethod::Get,
        url: "/".to_string(),
        headers: None,
        body: None,
        content_type: None,
        timeout: None,
    };
    assert_eq!(exec.timeout_secs(), 30);
}

#[test]
fn capture_switch_round_trips_through_its_stored_form() {
    let default = CaptureSwitch::default();
    assert_eq!(default.recording_status, RecordingStatus::StartRecording);
    for status in [RecordingStatus::StartRecording, RecordingStatus::PauseRecording] {
        let switch = CaptureSwitch { recording_status: status };
        assert_eq!(CaptureSwitch::from_config_value(&switch.config_value()), Some(switch));
    }
    assert_eq!(CaptureSwitch::from_config_value(&JsonValue::empty_object()), None);
}
