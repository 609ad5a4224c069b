//! Validation of request processing rules before they are stored.
use vstd::prelude::*;
use crate::error::{ErrorModel, RequestProcessingError};
use crate::handlers::{HandlerRule, HandlerType, config_json, handler_type_of};
use crate::json::{JsonModel, JsonValue, json_as_str, json_as_u64, json_get};
use crate::matcher::{glob_compile, glob_compile_error, regex_compile, regex_compile_error};
use crate::text::{
    decimal, int_decimal, is_blank, is_blank_seq, push_decimal, push_signed_decimal, push_str,
    seq_contains, str_contains, str_eq, string_of, to_chars,
};
use crate::types::{
    CaptureCondition, CaptureRule, CaptureType, ConditionModel, RequestRule, SimpleCaptureCondition,
    SimpleConditionModel, conditions_model, lemma_conditions_model,
};

verus! {

/// The text that `str::to_uppercase` gives for `s` (Unicode upper-case mapping).
pub uninterp spec fn upper_case(s: Seq<char>) -> Seq<char>;

/// Upper-cases a string with `str::to_uppercase`.
#[verifier::external_body]
fn to_upper_case(s: &str) -> (r: String)
    ensures
        r@ == upper_case(s@),
{
    s.to_uppercase()
}

/// The method names a rule may filter on, in upper case.
pub open spec fn is_http_method_name(s: Seq<char>) -> bool {
    ||| s == "GET"@
    ||| s == "POST"@
    ||| s == "PUT"@
    ||| s == "DELETE"@
    ||| s == "PATCH"@
    ||| s == "HEAD"@
    ||| s == "OPTIONS"@
    ||| s == "TRACE"@
}

/// The error for a rule name: blank, or longer than 255 bytes in UTF-8.
pub open spec fn rule_name_error(name: Seq<char>) -> Option<ErrorModel> {
    if is_blank_seq(name) {
        Some(ErrorModel::RuleValidation("Rule name cannot be empty"@))
    } else if vstd::utf8::encode_utf8(name).len() > 255 {
        Some(ErrorModel::RuleValidation("Rule name cannot exceed 255 characters"@))
    } else {
        None
    }
}

/// The error for a rule priority outside `0..=10000`.
pub open spec fn priority_error(priority: i32) -> Option<ErrorModel> {
    if priority < 0 {
        Some(ErrorModel::RuleValidation("Rule priority cannot be negative"@))
    } else if priority > 10000 {
        Some(ErrorModel::RuleValidation("Rule priority cannot exceed 10000"@))
    } else {
        None
    }
}

/// The error for an HTTP method whose upper-case form is not a known method name.
pub open spec fn http_method_error(method: Seq<char>) -> Option<ErrorModel> {
    if is_http_method_name(upper_case(method)) {
        None
    } else {
        Some(ErrorModel::RuleValidation("Invalid HTTP method: "@ + method))
    }
}

/// The error for a host with two dots in a row, or a dot at either end.
pub open spec fn host_error(host: Seq<char>) -> Option<ErrorModel> {
    if seq_contains(host, ".."@) {
        Some(ErrorModel::RuleValidation("Host cannot contain consecutive dots"@))
    } else if host.len() > 0 && (host[0] == '.' || host[host.len() - 1] == '.') {
        Some(ErrorModel::RuleValidation("Host cannot start or end with a dot"@))
    } else {
        None
    }
}

/// Why a glob or a regular expression pattern does not compile.
pub open spec fn pattern_problem(t: CaptureType, pattern: Seq<char>) -> Option<Seq<char>> {
    match t {
        CaptureType::Glob => match glob_compile_error(pattern) {
            Some(m) => Some("Invalid glob pattern: "@ + m),
            None => None,
        },
        CaptureType::Regex => match regex_compile_error(pattern) {
            Some(m) => Some("Invalid regex pattern: "@ + m),
            None => None,
        },
        _ => None,
    }
}

/// The error for a simple condition: a pattern that does not compile, a blank pattern, then a
/// non-blank method or host filter that is not valid.
pub open spec fn simple_condition_error(c: SimpleConditionModel) -> Option<ErrorModel> {
    let p = c.pattern@;
    if pattern_problem(c.capture_type, p) is Some {
        Some(ErrorModel::InvalidCapturePattern(p, pattern_problem(c.capture_type, p)->0))
    } else if is_blank_seq(p) {
        Some(ErrorModel::InvalidCapturePattern(p, "Pattern cannot be empty"@))
    } else if c.method matches Some(m) && !is_blank_seq(m@) && http_method_error(m@) is Some {
        http_method_error(c.method->0@)
    } else if c.host matches Some(h) && !is_blank_seq(h@) && host_error(h@) is Some {
        host_error(c.host->0@)
    } else {
        None
    }
}

/// The error for a condition tree: the first, in document order; a complex condition needs a
/// sub-condition.
pub open spec fn condition_error(c: ConditionModel) -> Option<ErrorModel>
    decreases c, 0int,
{
    match c {
        ConditionModel::Simple(s) => simple_condition_error(s),
        ConditionModel::Complex(_, cs) => if cs.len() == 0 {
            Some(ErrorModel::RuleValidation("Complex capture rule must have at least one condition"@))
        } else {
            conditions_error(cs)
        },
    }
}

/// The first error among a sequence of conditions.
pub open spec fn conditions_error(cs: Seq<ConditionModel>) -> Option<ErrorModel>
    decreases cs, 1int,
{
    if cs.len() == 0 {
        None
    } else {
        match conditions_error(cs.subrange(0, cs.len() - 1)) {
            Some(e) => Some(e),
            None => condition_error(cs[cs.len() - 1]),
        }
    }
}

/// Once a prefix of the conditions has an error, the whole sequence has that error.
proof fn lemma_conditions_error_prefix(cs: Seq<ConditionModel>, k: int)
    requires
        0 <= k <= cs.len(),
        conditions_error(cs.take(k)) is Some,
    ensures
        conditions_error(cs) == conditions_error(cs.take(k)),
    decreases cs.len(),
{
    if k < cs.len() {
        let p = cs.subrange(0, cs.len() - 1);
        assert(p.take(k) =~= cs.take(k));
        lemma_conditions_error_prefix(p, k);
    } else {
        assert(cs.take(k) =~= cs);
    }
}

/// A handler configuration error.
pub open spec fn config_error(handler_type: Seq<char>, reason: Seq<char>) -> Option<ErrorModel> {
    Some(ErrorModel::InvalidHandlerConfig(handler_type, reason))
}

/// The member `key` of `config` is a string that is blank.
pub open spec fn blank_str_member(config: JsonModel, key: Seq<char>) -> bool {
    json_get(config, key) matches Some(v) && json_as_str(v) matches Some(s) && is_blank_seq(s)
}

/// The error for a handler configuration, by handler kind.
pub open spec fn handler_config_error(t: HandlerType, config: JsonModel) -> Option<ErrorModel> {
    match t {
        HandlerType::Block => if json_get(config, "statusCode"@) matches Some(v) && json_as_u64(v) matches Some(
            code,
        ) && !(100 <= code && code <= 599) {
            config_error(
                "Block"@,
                "Invalid HTTP status code: "@ + decimal(json_as_u64(json_get(config, "statusCode"@)->0)->0 as nat),
            )
        } else {
            None
        },
        HandlerType::ModifyRequest => if json_get(config, "modifyMethod"@) matches Some(v) && json_as_str(v) matches Some(
            m,
        ) && !is_http_method_name(upper_case(m)) {
            config_error(
                "ModifyRequest"@,
                "Invalid HTTP method: "@ + json_as_str(json_get(config, "modifyMethod"@)->0)->0,
            )
        } else if blank_str_member(config, "modifyUrl"@) {
            config_error("ModifyRequest"@, "Modified URL cannot be empty"@)
        } else {
            None
        },
        HandlerType::ModifyResponse => if blank_str_member(config, "contentType"@) {
            config_error("ModifyResponse"@, "Content type cannot be empty"@)
        } else if json_get(config, "body"@) matches Some(b) && !(b is Str || b is Object || b is Array) {
            config_error("ModifyResponse"@, "Response body must be a string, object, or array"@)
        } else {
            None
        },
        HandlerType::LocalFile => if json_get(config, "filePath"@) is None {
            config_error("LocalFile"@, "File path is required"@)
        } else if blank_str_member(config, "filePath"@) {
            config_error("LocalFile"@, "File path cannot be empty"@)
        } else {
            None
        },
        HandlerType::ProxyForward => if blank_str_member(config, "targetHost"@) {
            config_error("redirect"@, "Target host cannot be empty"@)
        } else {
            None
        },
        HandlerType::HtmlScriptInjector => None,
        HandlerType::Delay => None,
    }
}

/// The error for a handler: a blank name, a negative execution order, then its configuration.
pub open spec fn handler_error(h: HandlerRule) -> Option<ErrorModel> {
    if is_blank_seq(h.name@) {
        Some(ErrorModel::RuleValidation("Handler name cannot be empty"@))
    } else if h.execution_order < 0 {
        Some(ErrorModel::RuleValidation("Handler execution order cannot be negative"@))
    } else {
        handler_config_error(handler_type_of(h.handler_type@), config_json(h.handler_type))
    }
}

/// An earlier handler has the same execution order as the handler at `i`.
pub open spec fn order_seen_before(hs: Seq<HandlerRule>, i: int) -> bool {
    exists|j: int| 0 <= j < i && (#[trigger] hs[j]).execution_order == hs[i].execution_order
}

/// The first error among handlers in order: a repeated execution order, then the handler's own
/// error.
pub open spec fn handler_seq_error(hs: Seq<HandlerRule>) -> Option<ErrorModel>
    decreases hs.len(),
{
    if hs.len() == 0 {
        None
    } else {
        match handler_seq_error(hs.drop_last()) {
            Some(e) => Some(e),
            None => if order_seen_before(hs, hs.len() - 1) {
                Some(
                    ErrorModel::RuleValidation(
                        "Duplicate execution order: "@ + int_decimal(hs.last().execution_order as int),
                    ),
                )
            } else {
                handler_error(hs.last())
            },
        }
    }
}

/// Once a prefix of the handlers has an error, all of them have that error.
proof fn lemma_handler_seq_error_prefix(hs: Seq<HandlerRule>, k: int)
    requires
        0 <= k <= hs.len(),
        handler_seq_error(hs.take(k)) is Some,
    ensures
        handler_seq_error(hs) == handler_seq_error(hs.take(k)),
    decreases hs.len(),
{
    if k < hs.len() {
        let p = hs.drop_last();
        assert(p.take(k) =~= hs.take(k));
        lemma_handler_seq_error_prefix(p, k);
    } else {
        assert(hs.take(k) =~= hs);
    }
}

/// The error for a rule's handlers: there must be one, then the first error in order.
pub open spec fn handlers_error(hs: Seq<HandlerRule>) -> Option<ErrorModel> {
    if hs.len() == 0 {
        Some(ErrorModel::RuleValidation("Rule must have at least one handler"@))
    } else {
        handler_seq_error(hs)
    }
}

/// The error for a rule: its name, its priority, its capture condition, then its handlers.
pub open spec fn rule_error(r: RequestRule) -> Option<ErrorModel> {
    if rule_name_error(r.name@) is Some {
        rule_name_error(r.name@)
    } else if priority_error(r.priority) is Some {
        priority_error(r.priority)
    } else if condition_error(r.capture.condition@) is Some {
        condition_error(r.capture.condition@)
    } else {
        handlers_error(r.handlers@)
    }
}

/// Handlers that pass validation are not empty, no two of them share an execution order, and
/// each of them passes validation on its own.
pub proof fn law_valid_handlers_have_distinct_orders(hs: Seq<HandlerRule>)
    requires
        handlers_error(hs) is None,
    ensures
        hs.len() > 0,
        forall|i: int, j: int| 0 <= i < j < hs.len() ==> (#[trigger] hs[i]).execution_order != (#[trigger] hs[j]).execution_order,
        forall|i: int| 0 <= i < hs.len() ==> handler_error(#[trigger] hs[i]) is None,
{
    lemma_handler_seq_ok(hs);
}

proof fn lemma_handler_seq_ok(hs: Seq<HandlerRule>)
    requires
        handler_seq_error(hs) is None,
    ensures
        forall|i: int, j: int| 0 <= i < j < hs.len() ==> (#[trigger] hs[i]).execution_order != (#[trigger] hs[j]).execution_order,
        forall|i: int| 0 <= i < hs.len() ==> handler_error(#[trigger] hs[i]) is None,
    decreases hs.len(),
{
    if hs.len() > 0 {
        let p = hs.drop_last();
        lemma_handler_seq_ok(p);
        assert forall|i: int, j: int| 0 <= i < j < hs.len() implies (#[trigger] hs[i]).execution_order
            != (#[trigger] hs[j]).execution_order by {
            if j == hs.len() - 1 {
                if hs[i].execution_order == hs[j].execution_order {
                    assert(order_seen_before(hs, hs.len() - 1));
                }
            } else {
                assert(p[i] == hs[i] && p[j] == hs[j]);
            }
        }
        assert forall|i: int| 0 <= i < hs.len() implies handler_error(#[trigger] hs[i]) is None by {
            if i < hs.len() - 1 {
                assert(p[i] == hs[i]);
            }
        }
    }
}

/// A condition that passes validation compiles for matching: every glob and regular
/// expression in it compiles.
pub proof fn law_valid_conditions_compile(c: ConditionModel)
    requires
        condition_error(c) is None,
    ensures
        crate::matcher::condition_compile_error(c) is None,
    decreases c, 0int,
{
    match c {
        ConditionModel::Simple(s) => {},
        ConditionModel::Complex(_, cs) => {
            lemma_valid_conditions_compile(cs);
        },
    }
}

/// A rule that passes validation compiles for matching.
pub proof fn law_valid_rules_compile(r: RequestRule)
    requires
        rule_error(r) is None,
    ensures
        crate::matcher::fresh_compile(r@) is Ok,
{
    law_valid_conditions_compile(r.capture.condition@);
}

/// Sub-conditions that pass validation compile.
proof fn lemma_valid_conditions_compile(cs: Seq<ConditionModel>)
    requires
        conditions_error(cs) is None,
    ensures
        crate::matcher::condition_compile_errors(cs) is None,
    decreases cs, 1int,
{
    if cs.len() > 0 {
        let p = cs.subrange(0, cs.len() - 1);
        assert(decreases_to!(cs => p));
        lemma_valid_conditions_compile(p);
        assert(decreases_to!(cs => cs[cs.len() - 1]));
        law_valid_conditions_compile(cs[cs.len() - 1]);
    }
}

/// An error result for a validation error, `Ok` for none.
pub open spec fn unit_result_is(r: Result<(), RequestProcessingError>, e: Option<ErrorModel>) -> bool {
    match e {
        Some(e) => r matches Err(x) && x@ == e,
        None => r is Ok,
    }
}

/// Checks request processing rules.
pub struct RuleValidator;

impl RuleValidator {
    /// Checks a rule name: not blank, at most 255 bytes.
    pub fn validate_rule_name(name: &str) -> (r: Result<(), RequestProcessingError>)
        ensures
            unit_result_is(r, rule_name_error(name@)),
    {
        if is_blank(name) {
            return Err(RequestProcessingError::rule_validation("Rule name cannot be empty"));
        }
        if name.as_bytes().len() > 255 {
            return Err(RequestProcessingError::rule_validation("Rule name cannot exceed 255 characters"));
        }
        Ok(())
    }

    /// Checks a rule priority: from 0 to 10000.
    pub fn validate_priority(priority: i32) -> (r: Result<(), RequestProcessingError>)
        ensures
            unit_result_is(r, priority_error(priority)),
    {
        if priority < 0 {
            return Err(RequestProcessingError::rule_validation("Rule priority cannot be negative"));
        }
        if priority > 10000 {
            return Err(RequestProcessingError::rule_validation("Rule priority cannot exceed 10000"));
        }
        Ok(())
    }

    /// Whether an upper-case method name is one a rule may filter on.
    pub fn is_valid_method_name(upper: &str) -> (r: bool)
        ensures
            r == is_http_method_name(upper@),
    {
        str_eq(upper, "GET") || str_eq(upper, "POST") || str_eq(upper, "PUT") || str_eq(upper, "DELETE")
            || str_eq(upper, "PATCH") || str_eq(upper, "HEAD") || str_eq(upper, "OPTIONS") || str_eq(
            upper,
            "TRACE",
        )
    }

    /// Checks an HTTP method, compared in upper case with the known method names.
    pub fn validate_http_method(method: &str) -> (r: Result<(), RequestProcessingError>)
        ensures
            unit_result_is(r, http_method_error(method@)),
    {
        let upper = to_upper_case(method);
        if !Self::is_valid_method_name(upper.as_str()) {
            let mut reason = string_of("Invalid HTTP method: ");
            push_str(&mut reason, method);
            return Err(RequestProcessingError::RuleValidation { reason });
        }
        Ok(())
    }

    /// Checks a host filter: no two dots in a row, no dot at either end.
    pub fn validate_host(host: &str) -> (r: Result<(), RequestProcessingError>)
        ensures
            unit_result_is(r, host_error(host@)),
    {
        if str_contains(host, "..") {
            return Err(RequestProcessingError::rule_validation("Host cannot contain consecutive dots"));
        }
        let cs = to_chars(host);
        if cs.len() > 0 && (cs[0] == '.' || cs[cs.len() - 1] == '.') {
            return Err(RequestProcessingError::rule_validation("Host cannot start or end with a dot"));
        }
        Ok(())
    }
    /// Checks a simple condition: a glob or regular expression must compile, the pattern must
    /// not be blank, and non-blank method and host filters must be valid.
    pub fn validate_simple_condition(condition: &SimpleCaptureCondition) -> (r: Result<(), RequestProcessingError>)
        ensures
            unit_result_is(r, simple_condition_error(condition@)),
    {
        match condition.capture_type {
            CaptureType::Glob => {
                if let Err(message) = glob_compile(condition.pattern.as_str()) {
                    let mut reason = string_of("Invalid glob pattern: ");
                    push_str(&mut reason, message.as_str());
                    return Err(RequestProcessingError::InvalidCapturePattern {
                        pattern: condition.pattern.clone(),
                        reason,
                    });
                }
            },
            CaptureType::Regex => {
                if let Err(message) = regex_compile(condition.pattern.as_str()) {
                    let mut reason = string_of("Invalid regex pattern: ");
                    push_str(&mut reason, message.as_str());
                    return Err(RequestProcessingError::InvalidCapturePattern {
                        pattern: condition.pattern.clone(),
                        reason,
                    });
                }
            },
            CaptureType::Exact | CaptureType::Contains => {},
        }
        if is_blank(condition.pattern.as_str()) {
            return Err(RequestProcessingError::InvalidCapturePattern {
                pattern: condition.pattern.clone(),
                reason: string_of("Pattern cannot be empty"),
            });
        }
        if let Some(method) = &condition.method {
            if !is_blank(method.as_str()) {
                Self::validate_http_method(method.as_str())?;
            }
        }
        if let Some(host) = &condition.host {
            if !is_blank(host.as_str()) {
                Self::validate_host(host.as_str())?;
            }
        }
        Ok(())
    }

    /// Checks a condition tree: a complex condition needs a sub-condition, and every
    /// sub-condition is checked in order.
    pub fn validate_capture_condition(condition: &CaptureCondition) -> (r: Result<(), RequestProcessingError>)
        ensures
            unit_result_is(r, condition_error(condition@)),
        decreases condition,
    {
        match condition {
            CaptureCondition::Simple(simple) => Self::validate_simple_condition(simple),
            CaptureCondition::Complex(complex) => {
                if complex.conditions.len() == 0 {
                    return Err(RequestProcessingError::rule_validation(
                        "Complex capture rule must have at least one condition",
                    ));
                }
                let ghost cms = conditions_model(complex.conditions@);
                proof {
                    lemma_conditions_model(complex.conditions@);
                    assert(cms.take(0) =~= Seq::<ConditionModel>::empty());
                }
                let mut i: usize = 0;
                while i < complex.conditions.len()
                    invariant
                        *condition == CaptureCondition::Complex(*complex),
                        cms == conditions_model(complex.conditions@),
                        cms.len() == complex.conditions@.len(),
                        cms.len() > 0,
                        forall|j: int| 0 <= j < cms.len() ==> #[trigger] cms[j] == complex.conditions@[j]@,
                        i <= complex.conditions@.len(),
                        conditions_error(cms.take(i as int)) is None,
                    decreases complex.conditions.len() - i,
                {
                    proof {
                        assert(decreases_to!(*condition => (*condition)->Complex_0));
                        assert(decreases_to!(*complex => complex.conditions));
                        assert(decreases_to!(complex.conditions => complex.conditions@[i as int]));
                        assert(cms.take(i + 1).subrange(0, i as int) =~= cms.take(i as int));
                        assert(cms.take(i + 1)[i as int] == cms[i as int]);
                    }
                    match Self::validate_capture_condition(&complex.conditions[i]) {
                        Ok(()) => {},
                        Err(e) => {
                            proof {
                                lemma_conditions_error_prefix(cms, i + 1);
                            }
                            return Err(e);
                        },
                    }
                    i = i + 1;
                }
                proof {
                    assert(cms.take(i as int) =~= cms);
                }
                Ok(())
            },
        }
    }

    /// Checks the condition of a capture rule.
    pub fn validate_capture_rule(capture: &CaptureRule) -> (r: Result<(), RequestProcessingError>)
        ensures
            unit_result_is(r, condition_error(capture@.condition)),
    {
        Self::validate_capture_condition(&capture.condition)
    }
    /// Whether the member `key` of `config` is a blank string.
    fn has_blank_str_member(config: &JsonValue, key: &str) -> (r: bool)
        ensures
            r == blank_str_member(config@, key@),
    {
        match config.get(key) {
            Some(v) => match v.as_str() {
                Some(s) => is_blank(s),
                None => false,
            },
            None => false,
        }
    }

    /// A handler configuration error of the given kind.
    fn config_err(handler_type: &str, reason: String) -> (r: RequestProcessingError)
        ensures
            r@ == ErrorModel::InvalidHandlerConfig(handler_type@, reason@),
    {
        RequestProcessingError::InvalidHandlerConfig { handler_type: string_of(handler_type), reason }
    }

    /// Checks a handler configuration, by kind: a block status code within `100..=599`; a
    /// modified method that is valid and a modified URL that is not blank; a content type that
    /// is not blank and a body that is a string, an object or an array; a file path that is
    /// present and not blank; a proxy target host that is not blank.
    pub fn validate_handler_config(handler_type: HandlerType, config: &JsonValue) -> (r: Result<
        (),
        RequestProcessingError,
    >)
        ensures
            unit_result_is(r, handler_config_error(handler_type, config@)),
    {
        match handler_type {
            HandlerType::Block => {
                if let Some(status_code) = config.get("statusCode") {
                    if let Some(code) = status_code.as_u64() {
                        if !(100 <= code && code <= 599) {
                            let mut reason = string_of("Invalid HTTP status code: ");
                            push_decimal(&mut reason, code);
                            return Err(Self::config_err("Block", reason));
                        }
                    }
                }
            },
            HandlerType::ModifyRequest => {
                if let Some(method) = config.get("modifyMethod") {
                    if let Some(method_str) = method.as_str() {
                        if Self::validate_http_method(method_str).is_err() {
                            let mut reason = string_of("Invalid HTTP method: ");
                            push_str(&mut reason, method_str);
                            return Err(Self::config_err("ModifyRequest", reason));
                        }
                    }
                }
                if Self::has_blank_str_member(config, "modifyUrl") {
                    return Err(Self::config_err("ModifyRequest", string_of("Modified URL cannot be empty")));
                }
            },
            HandlerType::ModifyResponse => {
                if Self::has_blank_str_member(config, "contentType") {
                    return Err(Self::config_err("ModifyResponse", string_of("Content type cannot be empty")));
                }
                if let Some(body) = config.get("body") {
                    if !body.is_string() && !body.is_object() && !body.is_array() {
                        return Err(Self::config_err(
                            "ModifyResponse",
                            string_of("Response body must be a string, object, or array"),
                        ));
                    }
                }
            },
            HandlerType::LocalFile => {
                if config.get("filePath").is_none() {
                    return Err(Self::config_err("LocalFile", string_of("File path is required")));
                }
                if Self::has_blank_str_member(config, "filePath") {
                    return Err(Self::config_err("LocalFile", string_of("File path cannot be empty")));
                }
            },
            HandlerType::ProxyForward => {
                if Self::has_blank_str_member(config, "targetHost") {
                    return Err(Self::config_err("redirect", string_of("Target host cannot be empty")));
                }
            },
            HandlerType::HtmlScriptInjector | HandlerType::Delay => {},
        }
        Ok(())
    }

    /// Checks a handler: a name that is not blank, an execution order that is not negative,
    /// then its configuration in its stored JSON form.
    pub fn validate_handler(handler: &HandlerRule) -> (r: Result<(), RequestProcessingError>)
        ensures
            unit_result_is(r, handler_error(*handler)),
    {
        if is_blank(handler.name.as_str()) {
            return Err(RequestProcessingError::rule_validation("Handler name cannot be empty"));
        }
        if handler.execution_order < 0 {
            return Err(RequestProcessingError::rule_validation("Handler execution order cannot be negative"));
        }
        let handler_type = HandlerType::from(&handler.handler_type);
        let config = handler.handler_type.config_json();
        Self::validate_handler_config(handler_type, &config)
    }

    /// Checks a rule's handlers: at least one, no two with the same execution order, and each
    /// handler valid; the first problem in order is the error.
    pub fn validate_handlers(handlers: &[HandlerRule]) -> (r: Result<(), RequestProcessingError>)
        ensures
            unit_result_is(r, handlers_error(handlers@)),
    {
        if handlers.len() == 0 {
            return Err(RequestProcessingError::rule_validation("Rule must have at least one handler"));
        }
        let ghost hs = handlers@;
        let mut i: usize = 0;
        proof {
            assert(hs.take(0) =~= Seq::<HandlerRule>::empty());
        }
        while i < handlers.len()
            invariant
                hs == handlers@,
                hs.len() > 0,
                i <= hs.len(),
                handler_seq_error(hs.take(i as int)) is None,
            decreases handlers.len() - i,
        {
            let order = handlers[i].execution_order;
            let mut j: usize = 0;
            while j < i
                invariant
                    hs == handlers@,
                    i < hs.len(),
                    j <= i,
                    order == hs[i as int].execution_order,
                    handler_seq_error(hs.take(i as int)) is None,
                    forall|k: int| 0 <= k < j ==> (#[trigger] hs[k]).execution_order != order,
                decreases i - j,
            {
                if handlers[j].execution_order == order {
                    proof {
                        let t = hs.take(i + 1);
                        assert(t.drop_last() =~= hs.take(i as int));
                        assert(t[j as int] == hs[j as int]);
                        assert(t.len() == i + 1 && t.last() == hs[i as int]);
                        assert(handler_seq_error(t.drop_last()) is None);
                        assert(order_seen_before(t, i as int));
                        assert(handler_seq_error(t) == Some(
                            ErrorModel::RuleValidation("Duplicate execution order: "@ + int_decimal(order as int)),
                        ));
                        lemma_handler_seq_error_prefix(hs, i + 1);
                    }
                    let mut reason = string_of("Duplicate execution order: ");
                    push_signed_decimal(&mut reason, order as i64);
                    return Err(RequestProcessingError::RuleValidation { reason });
                }
                j = j + 1;
            }
            proof {
                let t = hs.take(i + 1);
                assert(t.drop_last() =~= hs.take(i as int));
                assert(t.last() == hs[i as int]);
                assert(!order_seen_before(t, i as int)) by {
                    if order_seen_before(t, i as int) {
                        let k = choose|k: int| 0 <= k < i && (#[trigger] t[k]).execution_order == t[i as int].execution_order;
                        assert(t[k] == hs[k]);
                    }
                }
            }
            match Self::validate_handler(&handlers[i]) {
                Ok(()) => {},
                Err(e) => {
                    proof {
                        lemma_handler_seq_error_prefix(hs, i + 1);
                    }
                    return Err(e);
                },
            }
            i = i + 1;
        }
        proof {
            assert(hs.take(i as int) =~= hs);
        }
        Ok(())
    }

    /// Checks a whole rule: its name, its priority, its capture condition, then its handlers;
    /// the first problem is the error.
    pub fn validate_rule(rule: &RequestRule) -> (r: Result<(), RequestProcessingError>)
        ensures
            unit_result_is(r, rule_error(*rule)),
    {
        Self::validate_rule_name(rule.name.as_str())?;
        Self::validate_priority(rule.priority)?;
        Self::validate_capture_rule(&rule.capture)?;
        Self::validate_handlers(rule.handlers.as_slice())?;
        Ok(())
    }
}

/// The id of a rule to update; a rule without one cannot be updated.
pub fn rule_id_for_update(rule: &RequestRule) -> (r: Result<i32, RequestProcessingError>)
    ensures
        match rule.id {
            Some(id) => r == Ok::<i32, RequestProcessingError>(id),
            None => r matches Err(e) && e@ == ErrorModel::RuleValidation("Rule ID is required for update"@),
        },
{
    match rule.id {
        Some(id) => Ok(id),
        None => Err(RequestProcessingError::rule_validation("Rule ID is required for update")),
    }
}

/// A method filter passes exactly when its upper-case form is one of the eight HTTP methods
/// GET, POST, PUT, DELETE, PATCH, HEAD, OPTIONS and TRACE; any other is refused with
/// "Invalid HTTP method: " and the method as given.
pub proof fn law_valid_methods_are_the_eight(method: Seq<char>)
    ensures
        http_method_error(method) is None <==> {
            let u = upper_case(method);
            ||| u == "GET"@
            ||| u == "POST"@
            ||| u == "PUT"@
            ||| u == "DELETE"@
            ||| u == "PATCH"@
            ||| u == "HEAD"@
            ||| u == "OPTIONS"@
            ||| u == "TRACE"@
        },
        http_method_error(method) is Some ==> http_method_error(method) == Some(
            ErrorModel::RuleValidation("Invalid HTTP method: "@ + method),
        ),
{
}

} // verus!
