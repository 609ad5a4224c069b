use lynx::common::{body_text, BodyUtils, HeaderUtils, HttpMessage};

#[test]
fn test_body_utils() {
    let data = b"Hello, world!";
    assert!(!BodyUtils::is_binary_content(data));
    let binary_data = vec![0u8, 1, 2, 255, 254];
    assert!(BodyUtils::is_binary_content(&binary_data));
    let display = BodyUtils::truncate_for_display(b"Hello, world!", 5);
    assert_eq!(display, "Hello... [truncated, total 13 bytes]");
    let binary_display = BodyUtils::truncate_for_display(&binary_data, 100);
    assert_eq!(binary_display, "[Binary data, 5 bytes]");
}

#[test]
fn binary_means_more_than_a_tenth_control_bytes() {
    assert!(!BodyUtils::is_binary_content(b""));
    // Tabs, line feeds and carriage returns do not count.
    assert!(!BodyUtils::is_binary_content(b"\t\n\r\t\n\r"));
    // One control byte in ten is not more than a tenth; one in nine is.
    let mut ten = vec![b'a'; 9];
    ten.push(0);
    assert!(!BodyUtils::is_binary_content(&ten));
    let mut nine = vec![b'a'; 8];
    nine.push(0);
    assert!(BodyUtils::is_binary_content(&nine));
}

#[test]
fn display_keeps_short_text_and_replaces_invalid_bytes() {
    assert_eq!(BodyUtils::truncate_for_display(b"short", 10), "short");
    assert_eq!(BodyUtils::truncate_for_display(b"exact", 5), "exact");
    assert_eq!(BodyUtils::truncate_for_display(&[b'o', b'k', 0xff], 10), "ok\u{fffd}");
    // A cut inside a character is refused by the checked form.
    assert_eq!(BodyUtils::truncate_for_display_checked("é".as_bytes(), 1), None);
    assert_eq!(
        BodyUtils::truncate_for_display_checked("éa".as_bytes(), 2),
        Some("é... [truncated, total 3 bytes]".to_string())
    );
}

#[test]
fn body_text_decodes_valid_utf8_only() {
    assert_eq!(body_text("héllo".as_bytes()).unwrap(), "héllo");
    assert!(body_text(&[0xc3]).is_err());
}

struct TestMessage {
    headers: lynx::headers::Headers,
    body: Vec<u8>,
}

impl HttpMessage for TestMessage {
    fn headers(&self) -> &lynx::headers::Headers {
        &self.headers
    }

    fn body_data(&self) -> &[u8] {
        &self.body
    }
}

#[test]
fn test_http_message_trait() {
    let mut headers = lynx::headers::Headers::new();
    headers.insert("content-type".to_string(), "application/json".to_string());
    headers.insert("content-length".to_string(), "13".to_string());
    let body = b"Hello, world!".to_vec();
    let message = TestMessage { headers, body };
    assert_eq!(message.body_size(), 13);
    assert!(!message.is_body_empty());
    assert_eq!(message.body_as_string().unwrap(), "Hello, world!");
    assert!(message.has_header("content-type"));
    assert!(message.is_json());
    assert!(!message.is_html());
}

#[test]
fn message_headers_and_display() {
    let mut headers = lynx::headers::Headers::new();
    headers.insert("content-length".to_string(), "+42".to_string());
    headers.insert("content-encoding".to_string(), "gzip".to_string());
    let message = TestMessage { headers, body: b"abcdef".to_vec() };
    assert_eq!(message.content_length_header(), Some(42));
    assert!(message.has_content_encoding());
    assert_eq!(message.content_encoding(), Some(&"gzip".to_string()));
    assert_eq!(message.content_type(), None);
    assert!(message.has_content());
    assert_eq!(message.body_display(3), "abc... [truncated, total 6 bytes]");
    assert_eq!(message.body_display_checked(10), Some("abcdef".to_string()));
}

#[test]
fn test_header_utils() {
    let mut header_map = http::HeaderMap::new();
    header_map.insert("content-type", http::HeaderValue::from_static("application/json"));
    header_map.insert("content-length", http::HeaderValue::from_static("100"));
    let headers = HeaderUtils::extract_headers(&header_map);
    assert_eq!(headers.get("content-type"), Some(&"application/json".to_string()));
    assert_eq!(headers.get("content-length"), Some(&"100".to_string()));
    let content_type = HeaderUtils::extract_content_type(&header_map);
    assert_eq!(content_type, Some("application/json".to_string()));
    let content_length = HeaderUtils::extract_content_length(&header_map);
    assert_eq!(content_length, Some(100));
}

#[test]
fn header_values_that_are_not_text_are_left_out() {
    let mut header_map = http::HeaderMap::new();
    header_map.insert("x-bin", http::HeaderValue::from_bytes(&[0x80, 0x81]).unwrap());
    header_map.insert("x-ok", http::HeaderValue::from_static("fine"));
    header_map.insert("content-length", http::HeaderValue::from_static("ten"));
    let headers = HeaderUtils::extract_headers(&header_map);
    assert_eq!(headers.get("x-bin"), None);
    assert_eq!(headers.get("x-ok"), Some(&"fine".to_string()));
    assert_eq!(HeaderUtils::extract_header_value(&header_map, "X-OK"), Some("fine".to_string()));
    assert_eq!(HeaderUtils::extract_header_value(&header_map, "x-bin"), None);
    assert_eq!(HeaderUtils::extract_header_value(&header_map, "missing"), None);
    assert_eq!(HeaderUtils::extract_content_length(&header_map), None);
    assert_eq!(HeaderUtils::extract_content_type(&header_map), None);
}

#[test]
fn repeated_header_keeps_the_last_text_value() {
    let mut header_map = http::HeaderMap::new();
    header_map.append("x-multi", http::HeaderValue::from_static("one"));
    header_map.append("x-multi", http::HeaderValue::from_static("two"));
    header_map.append("x-multi", http::HeaderValue::from_bytes(&[0x80]).unwrap());
    let headers = HeaderUtils::extract_headers(&header_map);
    assert_eq!(headers.get("x-multi"), Some(&"two".to_string()));
    assert_eq!(HeaderUtils::extract_header_value(&header_map, "x-multi"), Some("one".to_string()));
}

#[test]
fn byte_buffers_round_trip() {
    let v = vec![1u8, 2, 3, 250];
    let b = BodyUtils::vec_to_bytes(v.clone());
    assert_eq!(&b[..], &v[..]);
    assert_eq!(BodyUtils::bytes_to_vec(&b), v);
}
