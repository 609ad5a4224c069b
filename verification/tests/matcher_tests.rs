use lynx::headers::Headers;
use lynx::json::JsonValue;
use lynx::matcher::RuleMatcher;
use lynx::request_info::RequestInfo;
use lynx::types::{
    CaptureCondition, CaptureRule, CaptureType, ComplexCaptureRule, LogicalOperator, RequestRule,
    SimpleCaptureCondition,
};
use lynx::error::RequestProcessingError;

fn create_test_request(url: &str, method: &str, host: &str, headers: Option<Headers>) -> RequestInfo {
    RequestInfo {
        url: url.to_string(),
        method: method.to_string(),
        host: host.to_string(),
        headers: headers.unwrap_or_else(Headers::new),
        body: Vec::new(),
    }
}

fn create_test_capture_rule(
    capture_type: CaptureType,
    pattern: &str,
    method: Option<&str>,
    host: Option<&str>,
) -> CaptureRule {
    let simple_condition = SimpleCaptureCondition {
        capture_type,
        pattern: pattern.to_string(),
        method: method.map(|s| s.to_string()),
        host: host.map(|s| s.to_string()),
        config: JsonValue::empty_object(),
    };
    CaptureRule { id: None, condition: CaptureCondition::Simple(simple_condition) }
}

fn create_test_request_rule(name: &str, priority: i32, enabled: bool, capture: CaptureRule) -> RequestRule {
    RequestRule {
        id: None,
        name: name.to_string(),
        description: None,
        enabled,
        priority,
        capture,
        handlers: vec![],
    }
}

fn contains(pattern: &str, method: Option<&str>) -> SimpleCaptureCondition {
    SimpleCaptureCondition {
        capture_type: CaptureType::Contains,
        pattern: pattern.to_string(),
        method: method.map(|s| s.to_string()),
        host: None,
        config: JsonValue::empty_object(),
    }
}

#[test]
fn test_glob_pattern_matching() {
    let matcher = RuleMatcher::new();
    let capture = create_test_capture_rule(CaptureType::Glob, "https://api.example.com/*", None, None);
    let request1 = create_test_request("https://api.example.com/users", "GET", "api.example.com", None);
    let request2 = create_test_request("https://other.example.com/users", "GET", "other.example.com", None);
    assert!(matcher.capture_matches(&capture, &request1).unwrap());
    assert!(!matcher.capture_matches(&capture, &request2).unwrap());
}

#[test]
fn test_method_filtering() {
    let matcher = RuleMatcher::new();
    let capture = create_test_capture_rule(CaptureType::Glob, "*", Some("POST"), None);
    let request1 = create_test_request("/api/users", "POST", "api.example.com", None);
    let request2 = create_test_request("/api/users", "GET", "api.example.com", None);
    assert!(matcher.capture_matches(&capture, &request1).unwrap());
    assert!(!matcher.capture_matches(&capture, &request2).unwrap());
}

#[test]
fn test_priority_sorting() {
    let mut matcher = RuleMatcher::new();
    let capture1 = create_test_capture_rule(CaptureType::Glob, "*", None, None);
    let capture2 = create_test_capture_rule(CaptureType::Glob, "*", None, None);
    let rule1 = create_test_request_rule("Low Priority", 10, true, capture1);
    let rule2 = create_test_request_rule("High Priority", 100, true, capture2);
    let rules = vec![rule1, rule2];
    let request = create_test_request("/api/users", "GET", "api.example.com", None);
    let matching_rules = matcher.find_matching_rules(&rules, &request).unwrap();
    assert_eq!(matching_rules.len(), 2);
    assert_eq!(matching_rules[0].name, "High Priority");
    assert_eq!(matching_rules[1].name, "Low Priority");
}

#[test]
fn test_simple_rule_exact_matching() {
    let mut matcher = RuleMatcher::new();
    let capture = create_test_capture_rule(
        CaptureType::Exact,
        "https://api.example.com/users",
        Some("GET"),
        Some("api.example.com"),
    );
    let rule = create_test_request_rule("Simple Exact Rule", 50, true, capture);
    let rules = vec![rule];
    let request1 = create_test_request("https://api.example.com/users", "GET", "api.example.com", None);
    let request2 = create_test_request("https://api.example.com/posts", "GET", "api.example.com", None);
    let request3 = create_test_request("https://api.example.com/users", "POST", "api.example.com", None);
    let matching_rules1 = matcher.find_matching_rules(&rules, &request1).unwrap();
    let matching_rules2 = matcher.find_matching_rules(&rules, &request2).unwrap();
    let matching_rules3 = matcher.find_matching_rules(&rules, &request3).unwrap();
    assert_eq!(matching_rules1.len(), 1);
    assert_eq!(matching_rules1[0].name, "Simple Exact Rule");
    assert_eq!(matching_rules2.len(), 0);
    assert_eq!(matching_rules3.len(), 0);
}

#[test]
fn test_complex_rule_logical_operators() {
    let mut matcher = RuleMatcher::new();
    let simple_condition1 = contains("api.example.com", None);
    let simple_condition2 = contains(".json", Some("GET"));
    let complex_condition = CaptureCondition::Complex(ComplexCaptureRule {
        operator: LogicalOperator::And,
        conditions: vec![
            CaptureCondition::Simple(simple_condition1.clone()),
            CaptureCondition::Simple(simple_condition2.clone()),
        ],
    });
    let capture_rule = CaptureRule { id: None, condition: complex_condition };
    let rule = create_test_request_rule("Complex AND Rule", 75, true, capture_rule);
    let rules = vec![rule];
    let request1 = create_test_request("https://api.example.com/data.json", "GET", "api.example.com", None);
    let request2 = create_test_request("https://api.example.com/users", "GET", "api.example.com", None);
    let request3 = create_test_request("https://example.com/data.json", "GET", "example.com", None);
    let request4 = create_test_request("https://api.example.com/data.json", "POST", "api.example.com", None);
    let matching_rules1 = matcher.find_matching_rules(&rules, &request1).unwrap();
    let matching_rules2 = matcher.find_matching_rules(&rules, &request2).unwrap();
    let matching_rules3 = matcher.find_matching_rules(&rules, &request3).unwrap();
    let matching_rules4 = matcher.find_matching_rules(&rules, &request4).unwrap();
    println!("Request1 URL: {}, Method: {}", request1.url, request1.method);
    println!("Matching rules for request1: {}", matching_rules1.len());
    let condition1_match = matcher
        .evaluate_condition(&CaptureCondition::Simple(simple_condition1.clone()), &request1)
        .unwrap();
    let condition2_match = matcher
        .evaluate_condition(&CaptureCondition::Simple(simple_condition2.clone()), &request1)
        .unwrap();
    println!("Condition1 (api.example.com) matches: {}", condition1_match);
    println!("Condition2 (.json + GET) matches: {}", condition2_match);
    println!("URL contains 'api.example.com': {}", request1.url.contains("api.example.com"));
    println!("URL contains '.json': {}", request1.url.contains(".json"));
    println!("Method matches 'GET': {}", request1.method.eq_ignore_ascii_case("GET"));
    assert_eq!(matching_rules1.len(), 1);
    assert_eq!(matching_rules1[0].name, "Complex AND Rule");
    assert_eq!(matching_rules2.len(), 0);
    assert_eq!(matching_rules3.len(), 0);
    assert_eq!(matching_rules4.len(), 0);
}

#[test]
fn test_complex_rule_and_with_not() {
    let mut matcher = RuleMatcher::new();
    let match_all_condition = SimpleCaptureCondition {
        capture_type: CaptureType::Glob,
        pattern: "*".to_string(),
        method: None,
        host: None,
        config: JsonValue::empty_object(),
    };
    let json_condition = contains(".json", None);
    let not_json_condition = CaptureCondition::Complex(ComplexCaptureRule {
        operator: LogicalOperator::Not,
        conditions: vec![CaptureCondition::Simple(json_condition)],
    });
    let complex_condition = CaptureCondition::Complex(ComplexCaptureRule {
        operator: LogicalOperator::And,
        conditions: vec![CaptureCondition::Simple(match_all_condition), not_json_condition],
    });
    let capture_rule = CaptureRule { id: None, condition: complex_condition };
    let rule = create_test_request_rule("AND with NOT Rule", 80, true, capture_rule);
    let rules = vec![rule];
    let request1 = create_test_request("https://api.example.com/data.json", "GET", "api.example.com", None);
    let request2 = create_test_request("https://api.example.com/users", "GET", "api.example.com", None);
    let request3 = create_test_request("https://example.com/posts", "POST", "example.com", None);
    let request4 = create_test_request("https://api.example.com/data.json/extra", "GET", "api.example.com", None);
    let matching_rules1 = matcher.find_matching_rules(&rules, &request1).unwrap();
    let matching_rules2 = matcher.find_matching_rules(&rules, &request2).unwrap();
    let matching_rules3 = matcher.find_matching_rules(&rules, &request3).unwrap();
    let matching_rules4 = matcher.find_matching_rules(&rules, &request4).unwrap();
    println!("Testing AND with NOT operator:");
    println!("Request1 (.json): {} matches", matching_rules1.len());
    println!("Request2 (no .json): {} matches", matching_rules2.len());
    println!("Request3 (no .json): {} matches", matching_rules3.len());
    println!("Request4 (.json in path): {} matches", matching_rules4.len());
    assert_eq!(matching_rules1.len(), 0);
    assert_eq!(matching_rules4.len(), 0);
    assert_eq!(matching_rules2.len(), 1);
    assert_eq!(matching_rules2[0].name, "AND with NOT Rule");
    assert_eq!(matching_rules3.len(), 1);
    assert_eq!(matching_rules3[0].name, "AND with NOT Rule");
}

#[test]
fn regex_patterns_match_anywhere_in_the_url() {
    let matcher = RuleMatcher::new();
    let capture = create_test_capture_rule(CaptureType::Regex, r"/users/\d+$", None, None);
    let hit = create_test_request("https://api.example.com/users/42", "GET", "api.example.com", None);
    let miss = create_test_request("https://api.example.com/users/me", "GET", "api.example.com", None);
    assert!(matcher.capture_matches(&capture, &hit).unwrap());
    assert!(!matcher.capture_matches(&capture, &miss).unwrap());
}

#[test]
fn a_regex_that_does_not_compile_is_an_error() {
    let matcher = RuleMatcher::new();
    let capture = create_test_capture_rule(CaptureType::Regex, "(unclosed", None, None);
    let request = create_test_request("https://api.example.com/", "GET", "api.example.com", None);
    match matcher.capture_matches(&capture, &request) {
        Err(RequestProcessingError::RegexCompilation { message }) => assert!(!message.is_empty()),
        other => panic!("unexpected {:?}", other),
    }
}

#[test]
fn a_glob_that_does_not_compile_is_an_error() {
    let mut matcher = RuleMatcher::new();
    let capture = create_test_capture_rule(CaptureType::Glob, "[z-a", None, None);
    let rules = vec![create_test_request_rule("bad", 1, true, capture)];
    let request = create_test_request("https://api.example.com/", "GET", "api.example.com", None);
    match matcher.find_matching_rules(&rules, &request) {
        Err(RequestProcessingError::PatternCompilation { message }) => assert!(!message.is_empty()),
        other => panic!("unexpected {:?}", other),
    }
}

#[test]
fn not_inverts_its_condition() {
    let matcher = RuleMatcher::new();
    let inner = CaptureCondition::Simple(contains("admin", None));
    let not = CaptureCondition::Complex(ComplexCaptureRule {
        operator: LogicalOperator::Not,
        conditions: vec![CaptureCondition::Simple(contains("admin", None))],
    });
    for url in ["https://x.test/admin", "https://x.test/public"] {
        let request = create_test_request(url, "GET", "x.test", None);
        let a = matcher.evaluate_condition(&inner, &request).unwrap();
        let b = matcher.evaluate_condition(&not, &request).unwrap();
        assert_eq!(a, !b);
    }
}

#[test]
fn not_with_two_conditions_is_an_error() {
    let matcher = RuleMatcher::new();
    let not = CaptureCondition::Complex(ComplexCaptureRule {
        operator: LogicalOperator::Not,
        conditions: vec![
            CaptureCondition::Simple(contains("a", None)),
            CaptureCondition::Simple(contains("b", None)),
        ],
    });
    let request = create_test_request("https://x.test/", "GET", "x.test", None);
    match matcher.evaluate_condition(&not, &request) {
        Err(RequestProcessingError::RuleValidation { reason }) => {
            assert_eq!(reason, "NOT operator must have exactly one condition")
        }
        other => panic!("unexpected {:?}", other),
    }
}

#[test]
fn or_matches_when_any_condition_matches_and_host_filter_ignores_case() {
    let matcher = RuleMatcher::new();
    let mut with_host = contains("/v1/", None);
    with_host.host = Some("API.Example.com".to_string());
    let or = CaptureCondition::Complex(ComplexCaptureRule {
        operator: LogicalOperator::Or,
        conditions: vec![CaptureCondition::Simple(contains("/v2/", None)), CaptureCondition::Simple(with_host)],
    });
    let hit = create_test_request("https://api.example.com/v1/x", "GET", "api.example.com", None);
    let miss = create_test_request("https://other.test/v1/x", "GET", "other.test", None);
    assert!(matcher.evaluate_condition(&or, &hit).unwrap());
    assert!(!matcher.evaluate_condition(&or, &miss).unwrap());
}

#[test]
fn disabled_rules_never_match_and_equal_priorities_keep_their_order() {
    let mut matcher = RuleMatcher::new();
    let any = || create_test_capture_rule(CaptureType::Contains, "", None, None);
    let rules = vec![
        create_test_request_rule("first", 5, true, any()),
        create_test_request_rule("off", 99, false, any()),
        create_test_request_rule("second", 5, true, any()),
        create_test_request_rule("top", 7, true, any()),
    ];
    let request = create_test_request("https://x.test/", "GET", "x.test", None);
    let names: Vec<String> =
        matcher.find_matching_rules(&rules, &request).unwrap().into_iter().map(|r| r.name).collect();
    assert_eq!(names, vec!["top", "first", "second"]);
}

#[test]
fn cached_rules_are_reused_until_invalidated() {
    let mut matcher = RuleMatcher::new();
    let mut rule = create_test_request_rule("cached", 1, true, create_test_capture_rule(CaptureType::Contains, "/a", None, None));
    rule.id = Some(7);
    let request = create_test_request("https://x.test/a", "GET", "x.test", None);
    assert_eq!(matcher.find_matching_rules(std::slice::from_ref(&rule), &request).unwrap().len(), 1);
    // Same id, name and priority: the cached compilation is used, so the new pattern is not seen.
    let mut changed = create_test_request_rule("cached", 1, true, create_test_capture_rule(CaptureType::Contains, "/b", None, None));
    changed.id = Some(7);
    assert_eq!(matcher.find_matching_rules(std::slice::from_ref(&changed), &request).unwrap().len(), 1);
    matcher.invalidate_rule(7);
    assert_eq!(matcher.find_matching_rules(std::slice::from_ref(&changed), &request).unwrap().len(), 0);
    matcher.clear_cache();
}

#[test]
fn matching_twice_with_the_same_rules_gives_the_same_answer() {
    let mut matcher = RuleMatcher::new();
    let mut a = create_test_request_rule("a", 3, true, create_test_capture_rule(CaptureType::Contains, "/x", None, None));
    a.id = Some(1);
    let mut b = create_test_request_rule("b", 9, true, create_test_capture_rule(CaptureType::Glob, "*/x*", None, None));
    b.id = Some(2);
    let rules = vec![a, b];
    let request = create_test_request("https://t.test/x/1", "GET", "t.test", None);
    let first: Vec<String> = matcher.find_matching_rules(&rules, &request).unwrap().into_iter().map(|r| r.name).collect();
    let second: Vec<String> = matcher.find_matching_rules(&rules, &request).unwrap().into_iter().map(|r| r.name).collect();
    assert_eq!(first, vec!["b", "a"]);
    assert_eq!(first, second);
}

#[test]
fn a_rule_that_validates_compiles_for_matching() {
    let mut matcher = RuleMatcher::new();
    let rule = RequestRule {
        id: Some(4),
        name: "valid".to_string(),
        description: None,
        enabled: true,
        priority: 10,
        capture: create_test_capture_rule(CaptureType::Regex, "^https://a\\.test/", Some("GET"), Some("a.test")),
        handlers: vec![lynx::handlers::HandlerRule::block_handler(None, None)],
    };
    assert!(lynx::validator::RuleValidator::validate_rule(&rule).is_ok());
    let request = create_test_request("https://a.test/p", "get", "A.TEST", None);
    assert_eq!(matcher.find_matching_rules(&[rule], &request).unwrap().len(), 1);
}
