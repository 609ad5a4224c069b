use lynx::handlers::{DelayType, HandlerRule, HandlerRuleType, HandlerType};
use lynx::headers::Headers;
use lynx::json::JsonValue;
use lynx::types::{CaptureCondition, CaptureRule, ComplexCaptureRule, LogicalOperator, RequestRule, SimpleCaptureCondition};

fn member<'a>(v: &'a JsonValue, key: &str) -> Option<&'a JsonValue> {
    v.get(key)
}

#[test]
fn handler_templates_carry_their_names_and_orders() {
    let block = HandlerRule::block_handler(Some(404), None);
    assert_eq!(block.name, "Block Access");
    assert_eq!(block.execution_order, 100);
    assert!(block.enabled && block.id.is_none());
    let file = HandlerRule::local_file_handler("/tmp/a".to_string(), None, Some(200));
    assert_eq!(file.name, "Local File Handler");
    assert_eq!(file.execution_order, 50);
    let mut headers = Headers::new();
    headers.insert("x-a".to_string(), "1".to_string());
    let modify = HandlerRule::modify_request_handler(Some(headers), None, Some("POST".to_string()), None);
    assert_eq!(modify.execution_order, 20);
    let response = HandlerRule::modify_response_handler(None, Some("body".to_string()), None, Some(201));
    assert_eq!(response.execution_order, 80);
    assert_eq!(response.description, Some("Modify response headers, body, method, or status code".to_string()));
    let forward = HandlerRule::proxy_forward_handler(Some("https".to_string()), Some("example.com".to_string()), None);
    assert_eq!(forward.execution_order, 10);
    let inject = HandlerRule::html_script_injector_handler(Some("<script></script>".to_string()), None);
    match &inject.handler_type {
        HandlerRuleType::HtmlScriptInjector(c) => assert_eq!(c.injection_position, Some("body-end".to_string())),
        _ => panic!("wrong kind"),
    }
    assert_eq!(inject.execution_order, 85);
    let delay = HandlerRule::delay_handler(100, Some(10), DelayType::Both);
    assert_eq!(delay.execution_order, 5);
    let default = HandlerRule::default();
    assert_eq!(default.name, "Default Handler");
    assert_eq!(HandlerType::from(&default.handler_type), HandlerType::Block);
    assert_eq!(HandlerType::from(&delay.handler_type), HandlerType::Delay);
}

#[test]
fn configurations_have_a_stored_json_form() {
    let block = HandlerRule::block_handler(Some(451), Some("legal".to_string()));
    let json = block.handler_type.config_json();
    assert!(matches!(member(&json, "statusCode"), Some(JsonValue::Number(451))));
    assert!(matches!(member(&json, "reason"), Some(JsonValue::String(s)) if s == "legal"));
    let delay = HandlerRule::delay_handler(2000, None, DelayType::AfterRequest);
    let json = delay.handler_type.config_json();
    assert!(matches!(member(&json, "delayMs"), Some(JsonValue::Number(2000))));
    assert!(matches!(member(&json, "varianceMs"), Some(JsonValue::Null)));
    assert!(matches!(member(&json, "delayType"), Some(JsonValue::String(s)) if s == "afterRequest"));
    let mut headers = Headers::new();
    headers.insert("x-a".to_string(), "1".to_string());
    let modify = HandlerRule::modify_request_handler(Some(headers), None, None, Some("/new".to_string()));
    let json = modify.handler_type.config_json();
    match member(&json, "modifyHeaders") {
        Some(h) => assert!(matches!(h.get("x-a"), Some(JsonValue::String(s)) if s == "1")),
        None => panic!("missing headers"),
    }
    assert!(matches!(member(&json, "modifyUrl"), Some(JsonValue::String(s)) if s == "/new"));
}

#[test]
fn capture_builders() {
    let condition = SimpleCaptureCondition::new_glob("*").with_config(JsonValue::Bool(true));
    assert!(matches!(condition.config, JsonValue::Bool(true)));
    let rule = ComplexCaptureRule::or(vec![CaptureCondition::simple("/a")]).add_condition(CaptureCondition::simple("/b"));
    assert!(matches!(rule.operator, LogicalOperator::Or));
    assert_eq!(rule.conditions.len(), 2);
    let not = ComplexCaptureRule::not(CaptureCondition::simple("/c"));
    assert_eq!(not.conditions.len(), 1);
    assert!(matches!(CaptureCondition::not(CaptureCondition::simple("/d")), CaptureCondition::Complex(c) if c.operator == LogicalOperator::Not));
    assert!(matches!(CaptureCondition::or(vec![]), CaptureCondition::Complex(c) if c.operator == LogicalOperator::Or));
    let capture = CaptureRule::complex(CaptureCondition::and(vec![CaptureCondition::simple("/e")])).with_id(9);
    assert_eq!(capture.id, Some(9));
    let default = RequestRule::default();
    assert_eq!(default.name, "New Rule");
    assert_eq!(default.priority, 0);
    assert!(default.enabled);
    match default.capture.condition {
        CaptureCondition::Simple(s) => assert_eq!(s.pattern, "*"),
        _ => panic!("default capture is simple"),
    }
}
