use lynx::error::RequestProcessingError;
use lynx::handlers::{DelayType, HandlerRule, HandlerType};
use lynx::json::JsonValue;
use lynx::types::{CaptureType, CaptureCondition, CaptureRule, ComplexCaptureRule, LogicalOperator, RequestRule, SimpleCaptureCondition};
use lynx::validator::RuleValidator;

fn obj(members: Vec<(&str, JsonValue)>) -> JsonValue {
    JsonValue::object(members.into_iter().map(|(k, v)| (k.to_string(), v)).collect())
}

fn reason_of(r: Result<(), RequestProcessingError>) -> String {
    match r {
        Err(e) => e.message(),
        Ok(()) => String::new(),
    }
}

#[test]
fn test_validate_rule_name() {
    assert!(RuleValidator::validate_rule_name("Valid Rule").is_ok());
    assert!(RuleValidator::validate_rule_name("").is_err());
    assert!(RuleValidator::validate_rule_name("   ").is_err());
    let long_name = "a".repeat(256);
    assert!(RuleValidator::validate_rule_name(&long_name).is_err());
}

#[test]
fn test_validate_priority() {
    assert!(RuleValidator::validate_priority(100).is_ok());
    assert!(RuleValidator::validate_priority(0).is_ok());
    assert!(RuleValidator::validate_priority(-1).is_err());
    assert!(RuleValidator::validate_priority(10001).is_err());
}

#[test]
fn test_validate_http_method() {
    assert!(RuleValidator::validate_http_method("GET").is_ok());
    assert!(RuleValidator::validate_http_method("post").is_ok());
    assert!(RuleValidator::validate_http_method("INVALID").is_err());
}

#[test]
fn test_validate_handler_config() {
    let block_config = obj(vec![("statusCode", JsonValue::Number(404)), ("reason", JsonValue::String("Not found".to_string()))]);
    assert!(RuleValidator::validate_handler_config(HandlerType::Block, &block_config).is_ok());
    let invalid_block_config = obj(vec![("statusCode", JsonValue::Number(999))]);
    assert!(RuleValidator::validate_handler_config(HandlerType::Block, &invalid_block_config).is_err());
    let file_config = obj(vec![("filePath", JsonValue::String("/path/to/file.txt".to_string()))]);
    assert!(RuleValidator::validate_handler_config(HandlerType::LocalFile, &file_config).is_ok());
    let invalid_file_config = obj(vec![]);
    assert!(RuleValidator::validate_handler_config(HandlerType::LocalFile, &invalid_file_config).is_err());
}

#[test]
fn name_length_counts_bytes() {
    assert!(RuleValidator::validate_rule_name(&"a".repeat(255)).is_ok());
    // 128 two-byte characters are 256 bytes.
    assert_eq!(
        reason_of(RuleValidator::validate_rule_name(&"é".repeat(128))),
        "Rule validation failed: Rule name cannot exceed 255 characters"
    );
    assert_eq!(reason_of(RuleValidator::validate_rule_name(" \t\n")), "Rule validation failed: Rule name cannot be empty");
}

#[test]
fn priority_bounds_are_inclusive() {
    assert!(RuleValidator::validate_priority(10000).is_ok());
    assert_eq!(reason_of(RuleValidator::validate_priority(-5)), "Rule validation failed: Rule priority cannot be negative");
    assert_eq!(reason_of(RuleValidator::validate_priority(20000)), "Rule validation failed: Rule priority cannot exceed 10000");
}

#[test]
fn method_names_are_upper_cased_before_comparison() {
    assert!(RuleValidator::validate_http_method("options").is_ok());
    assert!(RuleValidator::validate_http_method("TrAcE").is_ok());
    assert_eq!(
        reason_of(RuleValidator::validate_http_method("CONNECT")),
        "Rule validation failed: Invalid HTTP method: CONNECT"
    );
    assert!(RuleValidator::is_valid_method_name("PATCH"));
    assert!(!RuleValidator::is_valid_method_name("patch"));
}

#[test]
fn hosts_with_stray_dots_are_refused() {
    assert!(RuleValidator::validate_host("api.example.com").is_ok());
    assert!(RuleValidator::validate_host("*.example.com").is_ok());
    assert_eq!(reason_of(RuleValidator::validate_host("a..b")), "Rule validation failed: Host cannot contain consecutive dots");
    assert_eq!(reason_of(RuleValidator::validate_host(".a.b")), "Rule validation failed: Host cannot start or end with a dot");
    assert_eq!(reason_of(RuleValidator::validate_host("a.b.")), "Rule validation failed: Host cannot start or end with a dot");
}

fn simple(t: CaptureType, pattern: &str) -> SimpleCaptureCondition {
    SimpleCaptureCondition { capture_type: t, pattern: pattern.to_string(), method: None, host: None, config: JsonValue::empty_object() }
}

#[test]
fn simple_conditions_check_pattern_then_filters() {
    match RuleValidator::validate_simple_condition(&simple(CaptureType::Regex, "(")) {
        Err(RequestProcessingError::InvalidCapturePattern { pattern, reason }) => {
            assert_eq!(pattern, "(");
            assert!(reason.starts_with("Invalid regex pattern: "));
        },
        other => panic!("unexpected {:?}", other),
    }
    match RuleValidator::validate_simple_condition(&simple(CaptureType::Glob, "[z-")) {
        Err(RequestProcessingError::InvalidCapturePattern { reason, .. }) => assert!(reason.starts_with("Invalid glob pattern: ")),
        other => panic!("unexpected {:?}", other),
    }
    match RuleValidator::validate_simple_condition(&simple(CaptureType::Exact, "  ")) {
        Err(RequestProcessingError::InvalidCapturePattern { reason, .. }) => assert_eq!(reason, "Pattern cannot be empty"),
        other => panic!("unexpected {:?}", other),
    }
    let mut with_method = simple(CaptureType::Contains, "/api");
    with_method.method = Some("FETCH".to_string());
    assert!(RuleValidator::validate_simple_condition(&with_method).is_err());
    with_method.method = Some("   ".to_string());
    assert!(RuleValidator::validate_simple_condition(&with_method).is_ok());
    with_method.host = Some("bad..host".to_string());
    assert!(RuleValidator::validate_simple_condition(&with_method).is_err());
}

#[test]
fn complex_conditions_need_sub_conditions() {
    let empty = CaptureCondition::Complex(ComplexCaptureRule { operator: LogicalOperator::Or, conditions: vec![] });
    assert_eq!(
        reason_of(RuleValidator::validate_capture_condition(&empty)),
        "Rule validation failed: Complex capture rule must have at least one condition"
    );
    let nested = CaptureRule {
        id: None,
        condition: CaptureCondition::Complex(ComplexCaptureRule {
            operator: LogicalOperator::And,
            conditions: vec![CaptureCondition::simple("/api/*"), empty],
        }),
    };
    assert!(RuleValidator::validate_capture_rule(&nested).is_err());
}

#[test]
fn handler_configs_by_kind() {
    let bad_method = obj(vec![("modifyMethod", JsonValue::String("fly".to_string()))]);
    match RuleValidator::validate_handler_config(HandlerType::ModifyRequest, &bad_method) {
        Err(RequestProcessingError::InvalidHandlerConfig { handler_type, reason }) => {
            assert_eq!(handler_type, "ModifyRequest");
            assert_eq!(reason, "Invalid HTTP method: fly");
        },
        other => panic!("unexpected {:?}", other),
    }
    let blank_url = obj(vec![("modifyUrl", JsonValue::String(" ".to_string()))]);
    assert!(RuleValidator::validate_handler_config(HandlerType::ModifyRequest, &blank_url).is_err());
    let number_body = obj(vec![("body", JsonValue::Number(3))]);
    assert_eq!(
        reason_of(RuleValidator::validate_handler_config(HandlerType::ModifyResponse, &number_body)),
        "Invalid handler configuration for type ModifyResponse: Response body must be a string, object, or array"
    );
    let blank_host = obj(vec![("targetHost", JsonValue::String("".to_string()))]);
    match RuleValidator::validate_handler_config(HandlerType::ProxyForward, &blank_host) {
        Err(RequestProcessingError::InvalidHandlerConfig { handler_type, .. }) => assert_eq!(handler_type, "redirect"),
        other => panic!("unexpected {:?}", other),
    }
    let status_text = obj(vec![("statusCode", JsonValue::String("999".to_string()))]);
    assert!(RuleValidator::validate_handler_config(HandlerType::Block, &status_text).is_ok());
    assert_eq!(
        reason_of(RuleValidator::validate_handler_config(HandlerType::Block, &obj(vec![("statusCode", JsonValue::Number(99))]))),
        "Invalid handler configuration for type Block: Invalid HTTP status code: 99"
    );
    assert!(RuleValidator::validate_handler_config(HandlerType::Delay, &JsonValue::Null).is_ok());
}

#[test]
fn handlers_need_distinct_execution_orders() {
    assert_eq!(reason_of(RuleValidator::validate_handlers(&[])), "Rule validation failed: Rule must have at least one handler");
    let a = HandlerRule::delay_handler(10, None, DelayType::Both);
    let mut b = HandlerRule::block_handler(None, None);
    b.execution_order = a.execution_order;
    assert_eq!(
        reason_of(RuleValidator::validate_handlers(&[a.clone(), b])),
        "Rule validation failed: Duplicate execution order: 5"
    );
    let mut unnamed = HandlerRule::block_handler(Some(404), None);
    unnamed.name = " ".to_string();
    assert_eq!(reason_of(RuleValidator::validate_handler(&unnamed)), "Rule validation failed: Handler name cannot be empty");
    let mut negative = HandlerRule::block_handler(Some(404), None);
    negative.execution_order = -1;
    assert!(RuleValidator::validate_handler(&negative).is_err());
    let mut bad_status = HandlerRule::block_handler(Some(700), None);
    bad_status.execution_order = 1;
    assert!(RuleValidator::validate_handlers(&[a, bad_status]).is_err());
}

#[test]
fn a_whole_rule_is_checked_in_order() {
    let rule = RequestRule {
        id: None,
        name: "ok".to_string(),
        description: None,
        enabled: true,
        priority: 1,
        capture: CaptureRule::simple("/api/*"),
        handlers: vec![HandlerRule::block_handler(None, None)],
    };
    assert!(RuleValidator::validate_rule(&rule).is_ok());
    let mut no_handlers = rule.clone();
    no_handlers.handlers.clear();
    no_handlers.priority = -3;
    assert_eq!(reason_of(RuleValidator::validate_rule(&no_handlers)), "Rule validation failed: Rule priority cannot be negative");
}
