use lynx::common::BodyUtils;
use lynx::headers::Headers;
use lynx::response_info::ResponseInfo;

#[test]
fn test_new_response_info() {
    let mut headers = Headers::new();
    headers.insert("content-type".to_string(), "application/json".to_string());
    let body = b"Hello, world!".to_vec();
    let response = ResponseInfo::new(200, headers, body);
    assert_eq!(response.status_code, 200);
    assert_eq!(response.content_length, Some(13));
    assert_eq!(response.content_type, Some("application/json".to_string()));
    assert!(response.is_success());
}

#[test]
fn test_error_response() {
    let response = ResponseInfo::error_response(404, "Not Found");
    assert_eq!(response.status_code, 404);
    assert_eq!(response.body_as_string().unwrap(), "Not Found");
    assert_eq!(response.content_type, Some("text/plain".to_string()));
    assert!(response.is_client_error());
}

#[test]
fn test_json_response() {
    let data = serde_json::to_vec(&serde_json::Value::Object(
        [
            ("message".to_string(), serde_json::Value::String("success".to_string())),
            ("code".to_string(), serde_json::Value::from(200)),
        ]
        .into_iter()
        .collect(),
    ))
    .unwrap();
    let response = ResponseInfo::json_response(200, data);
    assert_eq!(response.status_code, 200);
    assert_eq!(response.content_type, Some("application/json".to_string()));
    assert!(response.is_success());
    let parsed: serde_json::Value = serde_json::from_slice(&response.body).unwrap();
    assert_eq!(parsed["message"], "success");
    assert_eq!(parsed["code"], 200);
}

#[test]
fn test_redirect_response() {
    let response = ResponseInfo::redirect_response("https://example.com", Some(301));
    assert_eq!(response.status_code, 301);
    assert_eq!(response.headers.get("location"), Some(&"https://example.com".to_string()));
    assert!(response.is_redirect());
    assert_eq!(response.body_size(), 0);
}

#[test]
fn test_status_code_checks() {
    let success_response = ResponseInfo::new(200, Headers::new(), vec![]);
    assert!(success_response.is_success());
    assert!(!success_response.is_redirect());
    assert!(!success_response.is_client_error());
    assert!(!success_response.is_server_error());

    let redirect_response = ResponseInfo::new(302, Headers::new(), vec![]);
    assert!(!redirect_response.is_success());
    assert!(redirect_response.is_redirect());
    assert!(!redirect_response.is_client_error());
    assert!(!redirect_response.is_server_error());

    let client_error_response = ResponseInfo::new(404, Headers::new(), vec![]);
    assert!(!client_error_response.is_success());
    assert!(!client_error_response.is_redirect());
    assert!(client_error_response.is_client_error());
    assert!(!client_error_response.is_server_error());

    let server_error_response = ResponseInfo::new(500, Headers::new(), vec![]);
    assert!(!server_error_response.is_success());
    assert!(!server_error_response.is_redirect());
    assert!(!server_error_response.is_client_error());
    assert!(server_error_response.is_server_error());
}

#[test]
fn redirect_defaults_to_302_and_content_type_checks_use_prefixes() {
    let response = ResponseInfo::redirect_response("/elsewhere", None);
    assert_eq!(response.status_code, 302);
    assert_eq!(response.content_length, Some(0));
    assert!(response.is_body_empty());
    assert_eq!(response.content_type, None);

    let mut headers = Headers::new();
    headers.insert("content-type".to_string(), "text/html; charset=utf-8".to_string());
    let html = ResponseInfo::new(200, headers, b"<p>".to_vec());
    assert!(html.is_html());
    assert!(!html.is_json());
    assert!(!html.is_text());
    assert_eq!(html.get_header("content-type"), Some(&"text/html; charset=utf-8".to_string()));
    assert_eq!(html.get_header("Content-Type"), None);

    let default = ResponseInfo::default();
    assert_eq!(default.status_code, 200);
    assert!(default.is_body_empty());
}

#[test]
fn invalid_utf8_bodies_are_not_text() {
    let response = ResponseInfo::new(200, Headers::new(), vec![0xff, 0xfe, b'a']);
    assert!(response.body_as_string().is_err());
    let headers = BodyUtils::create_json_headers();
    assert_eq!(headers.get("content-type"), Some(&"application/json".to_string()));
    assert_eq!(headers.len(), 1);
}
