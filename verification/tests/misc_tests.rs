use lynx::mock::{mock_status, status_code_from_query, MockPath};
use lynx::self_service::{is_self_service, normalize_host, ServerConfig};
use lynx::text::parse_u64;
use lynx::types::{CaptureCondition, CaptureType, ComplexCaptureRule, LogicalOperator, SimpleCaptureCondition};

#[test]
fn test_simple_capture_condition_creation() {
    let condition = SimpleCaptureCondition::new_glob("/api/*").with_method("GET").with_host("example.com");
    assert_eq!(condition.capture_type, CaptureType::Glob);
    assert_eq!(condition.pattern, "/api/*");
    assert_eq!(condition.method, Some("GET".to_string()));
    assert_eq!(condition.host, Some("example.com".to_string()));
}

#[test]
fn test_complex_and_rule() {
    let rule = ComplexCaptureRule::and(vec![CaptureCondition::simple("/api/*"), CaptureCondition::simple("*.json")]);
    assert!(matches!(rule.operator, LogicalOperator::And));
    assert_eq!(rule.conditions.len(), 2);
}

#[test]
fn mock_paths_round_trip_and_route_by_method() {
    for p in [
        MockPath::Hello, MockPath::Gzip, MockPath::Echo, MockPath::PushMsg, MockPath::Websocket, MockPath::Headers,
        MockPath::Slow, MockPath::Status, MockPath::Json, MockPath::PostEcho, MockPath::Timeout, MockPath::NotFound,
    ] {
        assert_eq!(MockPath::from(p.to_string().as_str()), p);
    }
    assert_eq!(MockPath::from("/nope"), MockPath::NotFound);
    assert_eq!(MockPath::route("PUT", MockPath::Echo), MockPath::Echo);
    assert_eq!(MockPath::route("GET", MockPath::PostEcho), MockPath::NotFound);
    assert_eq!(MockPath::route("POST", MockPath::PostEcho), MockPath::PostEcho);
    assert_eq!(MockPath::route("POST", MockPath::Hello), MockPath::NotFound);
    assert_eq!(MockPath::route("GET", MockPath::Status), MockPath::Status);
}

#[test]
fn status_query_parsing() {
    assert_eq!(status_code_from_query("code=201"), 201);
    assert_eq!(status_code_from_query(""), 200);
    assert_eq!(status_code_from_query("x=1&code=404&y=2"), 404);
    assert_eq!(status_code_from_query("code=abc"), 200);
    assert_eq!(status_code_from_query("code=+503"), 503);
    assert_eq!(status_code_from_query("code=70000"), 200);
    assert_eq!(status_code_from_query("code=12code=3"), 12);
    assert_eq!(parse_u64("18446744073709551615"), Some(u64::MAX));
    assert_eq!(parse_u64("18446744073709551616"), None);
    assert_eq!(parse_u64("+"), None);
    assert_eq!(parse_u64("-1"), None);
}

#[test]
fn status_route_answers_valid_codes_only() {
    assert_eq!(mock_status(status_code_from_query("code=404")), 404);
    assert_eq!(mock_status(status_code_from_query("code=50")), 200);
    assert_eq!(mock_status(100), 100);
    assert_eq!(mock_status(999), 999);
    assert_eq!(mock_status(99), 200);
    assert_eq!(mock_status(1000), 200);
    assert_eq!(mock_status(0), 200);
}

#[test]
fn self_service_hosts() {
    assert_eq!(normalize_host("localhost:3000"), "127.0.0.1:3000");
    assert_eq!(normalize_host("example.com"), "example.com:80");
    assert_eq!(normalize_host("10.0.0.1:8080:9"), "10.0.0.1:8080");
    let addrs = vec!["127.0.0.1:3000".to_string(), "192.168.1.2:3000".to_string()];
    assert!(is_self_service(Some(&addrs), Some("localhost:3000")));
    assert!(is_self_service(Some(&addrs), Some("192.168.1.2:3000")));
    assert!(!is_self_service(Some(&addrs), Some("192.168.1.2")));
    assert!(!is_self_service(None, Some("localhost:3000")));
    assert!(!is_self_service(Some(&addrs), None));
    let config = ServerConfig::default();
    assert_eq!(config.port, 3000);
    assert!(!config.only_localhost);
}
