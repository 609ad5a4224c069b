use lynx::handlers::{BlockHandlerConfig, DelayHandlerConfig, DelayType, HandlerRule};
use lynx::headers::Headers;
use lynx::processing::{
    first_action, handler_failure_response, next_response_action, after_request_handler, plan_for_lookup, plan_handlers,
    HandleRequestType, HandlerOutcome, ProcessingAction, RequestProcessingService,
};
use lynx::request_info::RequestInfo;
use lynx::response_info::ResponseInfo;
use lynx::types::{CaptureRule, RequestRule};

fn request() -> RequestInfo {
    RequestInfo {
        url: "https://example.com/test".to_string(),
        method: "GET".to_string(),
        host: "example.com".to_string(),
        headers: Headers::new(),
        body: b"test request body".to_vec(),
    }
}

fn rule(name: &str, enabled: bool, handlers: Vec<HandlerRule>) -> RequestRule {
    RequestRule {
        id: None,
        name: name.to_string(),
        description: None,
        enabled,
        priority: 1,
        capture: CaptureRule::simple("*"),
        handlers,
    }
}

fn named(mut h: HandlerRule, name: &str, order: i32, enabled: bool) -> HandlerRule {
    h.name = name.to_string();
    h.execution_order = order;
    h.enabled = enabled;
    h
}

#[test]
fn test_delay_handler_default() {
    let handler = DelayHandlerConfig::default();
    assert_eq!(handler.delay_ms, 1000);
    assert_eq!(handler.variance_ms, None);
    match handler.delay_type {
        DelayType::BeforeRequest => (),
        _ => panic!("Default DelayType should be BeforeRequest"),
    }
}

#[test]
fn block_handler_default_config_answers_403() {
    let handler = BlockHandlerConfig::default();
    match handler.handle_request(request()) {
        HandleRequestType::Response(response) => {
            assert_eq!(response.status_code, 403);
            assert_eq!(response.body, b"Access blocked by proxy".to_vec());
            assert_eq!(response.headers.get("content-type"), Some(&"text/plain".to_string()));
            assert_eq!(response.headers.get("x-blocked-by"), Some(&"lynx-proxy".to_string()));
            assert_eq!(response.content_length, Some(23));
        },
        _ => panic!("Expected Response variant"),
    }
}

#[test]
fn block_handler_custom_config_and_passthrough() {
    let handler = BlockHandlerConfig { status_code: Some(451), reason: Some("Blocked for legal reasons".to_string()) };
    match handler.handle_request(request()) {
        HandleRequestType::Response(response) => {
            assert_eq!(response.status_code, 451);
            assert_eq!(response.body_as_string().unwrap(), "Blocked for legal reasons");
            assert_eq!(response.content_type, Some("text/plain".to_string()));
        },
        _ => panic!("Expected Response variant"),
    }
    let passed = handler.handle_response(ResponseInfo::error_response(200, "Test response")).unwrap();
    assert_eq!(passed.status_code, 200);
    assert_eq!(passed.body_as_string().unwrap(), "Test response");
}

#[test]
fn delays_stay_within_the_variance_and_split_by_type() {
    let fixed = DelayHandlerConfig { delay_ms: 100, variance_ms: None, delay_type: DelayType::Both };
    assert_eq!(fixed.actual_delay_ms(), 100);
    assert_eq!(fixed.request_delay_ms(), Some(50));
    assert_eq!(fixed.response_delay_ms(), Some(50));
    let varied = DelayHandlerConfig { delay_ms: 100, variance_ms: Some(50), delay_type: DelayType::BeforeRequest };
    for _ in 0..50 {
        let d = varied.actual_delay_ms();
        assert!((50..=150).contains(&d));
    }
    assert_eq!(varied.response_delay_ms(), None);
    let saturating = DelayHandlerConfig { delay_ms: 10, variance_ms: Some(u64::MAX), delay_type: DelayType::AfterRequest };
    let _ = saturating.actual_delay_ms();
    assert_eq!(saturating.request_delay_for(80), None);
    assert_eq!(saturating.response_delay_for(80), Some(80));
    assert_eq!(fixed.request_delay_for(81), Some(40));
}

#[test]
fn plan_runs_enabled_handlers_by_execution_order() {
    let rules = vec![
        rule("a", true, vec![
            named(HandlerRule::block_handler(None, None), "a-30", 30, true),
            named(HandlerRule::block_handler(None, None), "a-off", 1, false),
            named(HandlerRule::delay_handler(1, None, DelayType::Both), "a-10", 10, true),
        ]),
        rule("off", false, vec![named(HandlerRule::block_handler(None, None), "off-0", 0, true)]),
        rule("b", true, vec![named(HandlerRule::block_handler(None, None), "b-10", 10, true)]),
    ];
    let plan = plan_handlers(&rules);
    let names: Vec<&str> = plan.iter().map(|h| h.name.as_str()).collect();
    assert_eq!(names, vec!["a-10", "b-10", "a-30"]);
}

#[test]
fn the_flow_runs_handlers_then_forwards_then_runs_response_handlers() {
    assert!(matches!(first_action(&[]), ProcessingAction::Forward));
    let plan = vec![
        HandlerRule::block_handler(None, None),
        HandlerRule::delay_handler(1, None, DelayType::AfterRequest),
        HandlerRule::block_handler(None, None),
    ];
    assert!(matches!(first_action(&plan), ProcessingAction::HandleRequest(0)));
    assert!(matches!(after_request_handler(&plan, 0, HandlerOutcome::Continue), ProcessingAction::HandleRequest(1)));
    assert!(matches!(after_request_handler(&plan, 2, HandlerOutcome::Continue), ProcessingAction::Forward));
    assert!(matches!(after_request_handler(&plan, 1, HandlerOutcome::Respond), ProcessingAction::ReplyWithHandlerResponse));
    match after_request_handler(&plan, 1, HandlerOutcome::Failed("boom".to_string())) {
        ProcessingAction::Reply(r) => {
            assert_eq!(r.status_code, 500);
            assert_eq!(r.body_as_string().unwrap(), "Handler processing failed: boom");
        },
        other => panic!("unexpected {:?}", other),
    }
    assert!(matches!(next_response_action(&plan, 0), ProcessingAction::HandleResponse(1)));
    assert!(matches!(next_response_action(&plan, 2), ProcessingAction::ReplyWithUpstream));
    let failure = handler_failure_response("x");
    assert_eq!(failure.headers.get("content-type"), Some(&"text/plain".to_string()));
    let service = RequestProcessingService::new(7u8);
    assert_eq!(service.service, 7);
}

fn outcome(kind: u8) -> HandlerOutcome {
    match kind {
        0 => HandlerOutcome::Continue,
        1 => HandlerOutcome::Respond,
        _ => HandlerOutcome::Failed("handler error".to_string()),
    }
}

/// Drives the request phase with the given outcomes: the positions run and the final step.
fn run_request_phase(plan: &[HandlerRule], kinds: &[u8]) -> (Vec<usize>, ProcessingAction) {
    let mut visited = Vec::new();
    let mut action = first_action(plan);
    while let ProcessingAction::HandleRequest(i) = action {
        visited.push(i);
        action = after_request_handler(plan, i, outcome(kinds[i]));
    }
    (visited, action)
}

/// Drives the response phase: the positions run and the final step.
fn run_response_phase(plan: &[HandlerRule]) -> (Vec<usize>, ProcessingAction) {
    let mut visited = Vec::new();
    let mut action = next_response_action(plan, 0);
    while let ProcessingAction::HandleResponse(i) = action {
        visited.push(i);
        action = next_response_action(plan, i + 1);
    }
    (visited, action)
}

fn three_handler_plan() -> Vec<HandlerRule> {
    vec![
        HandlerRule::delay_handler(1, None, DelayType::BeforeRequest),
        HandlerRule::block_handler(None, None),
        HandlerRule::delay_handler(2, None, DelayType::AfterRequest),
    ]
}

#[test]
fn all_continuing_handlers_run_in_order_then_forward_then_response_handlers() {
    let plan = three_handler_plan();
    let (visited, end) = run_request_phase(&plan, &[0, 0, 0]);
    assert_eq!(visited, vec![0, 1, 2]);
    assert!(matches!(end, ProcessingAction::Forward));
    let (visited, end) = run_response_phase(&plan);
    assert_eq!(visited, vec![0, 2]);
    assert!(matches!(end, ProcessingAction::ReplyWithUpstream));
}

#[test]
fn first_responding_handler_ends_the_request_phase() {
    let plan = three_handler_plan();
    let (visited, end) = run_request_phase(&plan, &[0, 1, 0]);
    assert_eq!(visited, vec![0, 1]);
    assert!(matches!(end, ProcessingAction::ReplyWithHandlerResponse));
    let (visited, end) = run_request_phase(&plan, &[2, 0, 0]);
    assert_eq!(visited, vec![0]);
    match end {
        ProcessingAction::Reply(r) => {
            assert_eq!(r.status_code, 500);
            assert_eq!(r.body_as_string().unwrap(), "Handler processing failed: handler error");
        },
        other => panic!("unexpected {:?}", other),
    }
}

#[test]
fn failed_or_empty_lookup_bypasses_processing() {
    let failed: Result<Vec<RequestRule>, String> = Err("database is down".to_string());
    assert!(plan_for_lookup(failed).is_none());
    let empty: Result<Vec<RequestRule>, String> = Ok(vec![]);
    assert!(plan_for_lookup(empty).is_none());
    let found: Result<Vec<RequestRule>, String> = Ok(vec![rule("r", true, vec![
        named(HandlerRule::block_handler(None, None), "late", 5, true),
        named(HandlerRule::block_handler(None, None), "early", 1, true),
    ])]);
    let plan = plan_for_lookup(found).unwrap();
    let names: Vec<&str> = plan.iter().map(|h| h.name.as_str()).collect();
    assert_eq!(names, vec!["early", "late"]);
    let disabled: Result<Vec<RequestRule>, String> = Ok(vec![rule("r", false, vec![HandlerRule::block_handler(None, None)])]);
    let plan = plan_for_lookup(disabled).unwrap();
    assert!(plan.is_empty());
    assert!(matches!(first_action(&plan), ProcessingAction::Forward));
    assert!(matches!(next_response_action(&plan, 0), ProcessingAction::ReplyWithUpstream));
}
