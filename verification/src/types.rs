//! Request processing rules: a capture condition tree that selects requests and the handlers
//! that act on them.
use vstd::prelude::*;
use crate::handlers::{HandlerRule, HandlerRuleModel};
use crate::json::{JsonModel, JsonValue};
use crate::text::{clone_opt_string, string_of};

pub use crate::handlers::{LocalFileConfig, ModifyRequestConfig};

verus! {

/// How a capture pattern is compared with a URL.
#[derive(Debug, Clone, Copy, PartialEq, Eq, Structural)]
pub enum CaptureType {
    Glob,
    Regex,
    Exact,
    Contains,
}

impl Default for CaptureType {
    fn default() -> (r: Self)
        ensures
            r == CaptureType::Glob,
    {
        CaptureType::Glob
    }
}

/// How the sub-conditions of a complex condition combine.
#[derive(Debug, Clone, Copy, PartialEq, Eq, Structural)]
pub enum LogicalOperator {
    And,
    Or,
    Not,
}

/// A single capture condition: a URL pattern with optional method and host filters.
#[derive(Debug)]
pub struct SimpleCaptureCondition {
    pub capture_type: CaptureType,
    pub pattern: String,
    pub method: Option<String>,
    pub host: Option<String>,
    pub config: JsonValue,
}

/// A capture condition that combines sub-conditions.
#[derive(Debug)]
pub struct ComplexCaptureRule {
    pub operator: LogicalOperator,
    pub conditions: Vec<CaptureCondition>,
}

/// A capture condition, simple or complex.
#[derive(Debug)]
pub enum CaptureCondition {
    Simple(SimpleCaptureCondition),
    Complex(ComplexCaptureRule),
}

/// The capture part of a rule.
#[derive(Debug)]
pub struct CaptureRule {
    pub id: Option<i32>,
    pub condition: CaptureCondition,
}

/// A request processing rule.
#[derive(Debug)]
pub struct RequestRule {
    pub id: Option<i32>,
    pub name: String,
    pub description: Option<String>,
    pub enabled: bool,
    pub priority: i32,
    pub capture: CaptureRule,
    pub handlers: Vec<HandlerRule>,
}

/// The model of a simple condition.
pub struct SimpleConditionModel {
    pub capture_type: CaptureType,
    pub pattern: String,
    pub method: Option<String>,
    pub host: Option<String>,
    pub config: JsonModel,
}

/// The model of a capture condition.
#[verifier::ext_equal]
pub enum ConditionModel {
    Simple(SimpleConditionModel),
    Complex(LogicalOperator, Seq<ConditionModel>),
}

/// The model of a capture rule.
#[verifier::ext_equal]
pub struct CaptureRuleModel {
    pub id: Option<i32>,
    pub condition: ConditionModel,
}

/// The model of a request rule.
#[verifier::ext_equal]
pub struct RequestRuleModel {
    pub id: Option<i32>,
    pub name: String,
    pub description: Option<String>,
    pub enabled: bool,
    pub priority: i32,
    pub capture: CaptureRuleModel,
    pub handlers: Seq<HandlerRuleModel>,
}

impl View for SimpleCaptureCondition {
    type V = SimpleConditionModel;

    open spec fn view(&self) -> SimpleConditionModel {
        SimpleConditionModel {
            capture_type: self.capture_type,
            pattern: self.pattern,
            method: self.method,
            host: self.host,
            config: self.config@,
        }
    }
}

/// The model of a capture condition.
pub open spec fn condition_model(c: CaptureCondition) -> ConditionModel
    decreases c, 0int,
{
    match c {
        CaptureCondition::Simple(s) => ConditionModel::Simple(s@),
        CaptureCondition::Complex(r) => ConditionModel::Complex(
            r.operator,
            conditions_model(r.conditions@),
        ),
    }
}

/// The models of a sequence of conditions.
pub open spec fn conditions_model(s: Seq<CaptureCondition>) -> Seq<ConditionModel>
    decreases s, 1int,
{
    if s.len() == 0 {
        Seq::empty()
    } else {
        conditions_model(s.subrange(0, s.len() - 1)).push(condition_model(s[s.len() - 1]))
    }
}

/// The condition models line up with the conditions.
pub proof fn lemma_conditions_model(s: Seq<CaptureCondition>)
    ensures
        conditions_model(s).len() == s.len(),
        forall|i: int| 0 <= i < s.len() ==> #[trigger] conditions_model(s)[i] == condition_model(s[i]),
    decreases s.len(),
{
    if s.len() > 0 {
        lemma_conditions_model(s.subrange(0, s.len() - 1));
    }
}

impl View for CaptureCondition {
    type V = ConditionModel;

    open spec fn view(&self) -> ConditionModel {
        condition_model(*self)
    }
}

impl View for CaptureRule {
    type V = CaptureRuleModel;

    open spec fn view(&self) -> CaptureRuleModel {
        CaptureRuleModel { id: self.id, condition: self.condition@ }
    }
}

/// The models of a sequence of handlers.
pub open spec fn handlers_model(s: Seq<HandlerRule>) -> Seq<HandlerRuleModel> {
    s.map_values(|h: HandlerRule| h@)
}

impl View for RequestRule {
    type V = RequestRuleModel;

    open spec fn view(&self) -> RequestRuleModel {
        RequestRuleModel {
            id: self.id,
            name: self.name,
            description: self.description,
            enabled: self.enabled,
            priority: self.priority,
            capture: self.capture@,
            handlers: handlers_model(self.handlers@),
        }
    }
}

impl Clone for SimpleCaptureCondition {
    fn clone(&self) -> (r: Self)
        ensures
            r@ == self@,
    {
        SimpleCaptureCondition {
            capture_type: self.capture_type,
            pattern: self.pattern.clone(),
            method: clone_opt_string(&self.method),
            host: clone_opt_string(&self.host),
            config: self.config.clone(),
        }
    }
}

/// A copy of a capture condition.
pub fn clone_condition(c: &CaptureCondition) -> (r: CaptureCondition)
    ensures
        r@ == c@,
    decreases c,
{
    match c {
        CaptureCondition::Simple(s) => CaptureCondition::Simple(s.clone()),
        CaptureCondition::Complex(rule) => {
            let mut out: Vec<CaptureCondition> = Vec::new();
            let mut i: usize = 0;
            while i < rule.conditions.len()
                invariant
                    *c == CaptureCondition::Complex(*rule),
                    i <= rule.conditions@.len(),
                    out@.len() == i,
                    forall|j: int| 0 <= j < i ==> (#[trigger] out@[j])@ == rule.conditions@[j]@,
                decreases rule.conditions.len() - i,
            {
                proof {
                    assert(decreases_to!(*c => (*c)->Complex_0));
                    assert(decreases_to!(*rule => rule.conditions));
                    assert(decreases_to!(rule.conditions => rule.conditions@[i as int]));
                }
                let x = clone_condition(&rule.conditions[i]);
                out.push(x);
                i = i + 1;
            }
            proof {
                lemma_conditions_model(out@);
                lemma_conditions_model(rule.conditions@);
                assert(conditions_model(out@) =~= conditions_model(rule.conditions@));
            }
            let r = CaptureCondition::Complex(ComplexCaptureRule { operator: rule.operator, conditions: out });
            assert(r@ =~= c@);
            r
        },
    }
}

impl Clone for CaptureCondition {
    fn clone(&self) -> (r: Self)
        ensures
            r@ == self@,
    {
        clone_condition(self)
    }
}

impl Clone for ComplexCaptureRule {
    fn clone(&self) -> (r: Self)
        ensures
            r.operator == self.operator,
            conditions_model(r.conditions@) == conditions_model(self.conditions@),
    {
        let mut out: Vec<CaptureCondition> = Vec::new();
        let mut i: usize = 0;
        while i < self.conditions.len()
            invariant
                i <= self.conditions@.len(),
                out@.len() == i,
                forall|j: int| 0 <= j < i ==> (#[trigger] out@[j])@ == self.conditions@[j]@,
            decreases self.conditions.len() - i,
        {
            out.push(self.conditions[i].clone());
            i = i + 1;
        }
        proof {
            lemma_conditions_model(out@);
            lemma_conditions_model(self.conditions@);
            assert(conditions_model(out@) =~= conditions_model(self.conditions@));
        }
        ComplexCaptureRule { operator: self.operator, conditions: out }
    }
}

impl Clone for CaptureRule {
    fn clone(&self) -> (r: Self)
        ensures
            r@ == self@,
    {
        CaptureRule { id: self.id, condition: self.condition.clone() }
    }
}

/// A copy of a list of handlers.
pub fn clone_handlers(hs: &Vec<HandlerRule>) -> (r: Vec<HandlerRule>)
    ensures
        handlers_model(r@) == handlers_model(hs@),
{
    let mut out: Vec<HandlerRule> = Vec::new();
    let mut i: usize = 0;
    while i < hs.len()
        invariant
            i <= hs@.len(),
            out@.len() == i,
            forall|j: int| 0 <= j < i ==> (#[trigger] out@[j])@ == hs@[j]@,
        decreases hs.len() - i,
    {
        out.push(hs[i].clone());
        i = i + 1;
    }
    assert(handlers_model(out@) =~= handlers_model(hs@));
    out
}

impl Clone for RequestRule {
    fn clone(&self) -> (r: Self)
        ensures
            r@ == self@,
    {
        RequestRule {
            id: self.id,
            name: self.name.clone(),
            description: clone_opt_string(&self.description),
            enabled: self.enabled,
            priority: self.priority,
            capture: self.capture.clone(),
            handlers: clone_handlers(&self.handlers),
        }
    }
}

impl Default for SimpleCaptureCondition {
    fn default() -> (r: Self)
        ensures
            r.capture_type == CaptureType::Glob,
            r.pattern@ == "*"@,
            r.method is None,
            r.host is None,
            r.config@ == JsonModel::Object(Seq::empty()),
    {
        SimpleCaptureCondition {
            capture_type: CaptureType::Glob,
            pattern: string_of("*"),
            method: None,
            host: None,
            config: JsonValue::empty_object(),
        }
    }
}

impl Default for ComplexCaptureRule {
    fn default() -> (r: Self)
        ensures
            r.operator == LogicalOperator::And,
            r.conditions@.len() == 0,
    {
        ComplexCaptureRule { operator: LogicalOperator::And, conditions: Vec::new() }
    }
}

impl Default for CaptureCondition {
    fn default() -> (r: Self)
        ensures
            r matches CaptureCondition::Simple(s) && s.capture_type == CaptureType::Glob && s.pattern@
                == "*"@ && s.method is None && s.host is None && s.config@ == JsonModel::Object(
                Seq::empty(),
            ),
    {
        CaptureCondition::Simple(SimpleCaptureCondition::default())
    }
}

impl Default for CaptureRule {
    fn default() -> (r: Self)
        ensures
            r.id is None,
            r.condition matches CaptureCondition::Simple(s) && s.capture_type == CaptureType::Glob
                && s.pattern@ == "*"@ && s.method is None && s.host is None,
    {
        CaptureRule { id: None, condition: CaptureCondition::default() }
    }
}

impl Default for RequestRule {
    fn default() -> (r: Self)
        ensures
            r.id is None,
            r.name@ == "New Rule"@,
            r.description is None,
            r.enabled,
            r.priority == 0,
            r.capture.id is None,
            r.capture.condition matches CaptureCondition::Simple(s) && s.capture_type
                == CaptureType::Glob && s.pattern@ == "*"@,
            r.handlers@.len() == 0,
    {
        RequestRule {
            id: None,
            name: string_of("New Rule"),
            description: None,
            enabled: true,
            priority: 0,
            capture: CaptureRule::default(),
            handlers: Vec::new(),
        }
    }
}

impl SimpleCaptureCondition {
    /// A glob condition on `pattern` with no method or host filter.
    pub fn new_glob(pattern: &str) -> (r: Self)
        ensures
            r.capture_type == CaptureType::Glob,
            r.pattern@ == pattern@,
            r.method is None,
            r.host is None,
            r.config@ == JsonModel::Object(Seq::empty()),
    {
        SimpleCaptureCondition {
            capture_type: CaptureType::Glob,
            pattern: string_of(pattern),
            method: None,
            host: None,
            config: JsonValue::empty_object(),
        }
    }

    /// The condition with a method filter.
    pub fn with_method(self, method: &str) -> (r: Self)
        ensures
            r.method matches Some(m) && m@ == method@,
            r.capture_type == self.capture_type,
            r.pattern == self.pattern,
            r.host == self.host,
            r.config == self.config,
    {
        let mut s = self;
        s.method = Some(string_of(method));
        s
    }

    /// The condition with a host filter.
    pub fn with_host(self, host: &str) -> (r: Self)
        ensures
            r.host matches Some(h) && h@ == host@,
            r.capture_type == self.capture_type,
            r.pattern == self.pattern,
            r.method == self.method,
            r.config == self.config,
    {
        let mut s = self;
        s.host = Some(string_of(host));
        s
    }

    /// The condition with extra configuration.
    pub fn with_config(self, config: JsonValue) -> (r: Self)
        ensures
            r.config == config,
            r.capture_type == self.capture_type,
            r.pattern == self.pattern,
            r.method == self.method,
            r.host == self.host,
    {
        let mut s = self;
        s.config = config;
        s
    }
}

impl ComplexCaptureRule {
    /// All the conditions must hold.
    pub fn and(conditions: Vec<CaptureCondition>) -> (r: Self)
        ensures
            r.operator == LogicalOperator::And,
            r.conditions == conditions,
    {
        ComplexCaptureRule { operator: LogicalOperator::And, conditions }
    }

    /// At least one of the conditions must hold.
    pub fn or(conditions: Vec<CaptureCondition>) -> (r: Self)
        ensures
            r.operator == LogicalOperator::Or,
            r.conditions == conditions,
    {
        ComplexCaptureRule { operator: LogicalOperator::Or, conditions }
    }

    /// The condition must not hold.
    pub fn not(condition: CaptureCondition) -> (r: Self)
        ensures
            r.operator == LogicalOperator::Not,
            r.conditions@ == seq![condition],
    {
        let mut conditions: Vec<CaptureCondition> = Vec::new();
        conditions.push(condition);
        ComplexCaptureRule { operator: LogicalOperator::Not, conditions }
    }

    /// The rule with one more condition at the end.
    pub fn add_condition(self, condition: CaptureCondition) -> (r: Self)
        ensures
            r.operator == self.operator,
            r.conditions@ == self.conditions@.push(condition),
    {
        let mut s = self;
        s.conditions.push(condition);
        s
    }
}

impl CaptureCondition {
    /// A glob condition on `pattern`.
    pub fn simple(pattern: &str) -> (r: Self)
        ensures
            r matches CaptureCondition::Simple(s) && s.capture_type == CaptureType::Glob && s.pattern@
                == pattern@ && s.method is None && s.host is None && s.config@ == JsonModel::Object(
                Seq::empty(),
            ),
    {
        CaptureCondition::Simple(SimpleCaptureCondition::new_glob(pattern))
    }

    /// All the conditions must hold.
    pub fn and(conditions: Vec<CaptureCondition>) -> (r: Self)
        ensures
            r matches CaptureCondition::Complex(c) && c.operator == LogicalOperator::And
                && c.conditions == conditions,
    {
        CaptureCondition::Complex(ComplexCaptureRule::and(conditions))
    }

    /// At least one of the conditions must hold.
    pub fn or(conditions: Vec<CaptureCondition>) -> (r: Self)
        ensures
            r matches CaptureCondition::Complex(c) && c.operator == LogicalOperator::Or
                && c.conditions == conditions,
    {
        CaptureCondition::Complex(ComplexCaptureRule::or(conditions))
    }

    /// The condition must not hold.
    pub fn not(condition: CaptureCondition) -> (r: Self)
        ensures
            r matches CaptureCondition::Complex(c) && c.operator == LogicalOperator::Not
                && c.conditions@ == seq![condition],
    {
        CaptureCondition::Complex(ComplexCaptureRule::not(condition))
    }
}

impl CaptureRule {
    /// A capture rule with a single glob condition on `pattern`.
    pub fn simple(pattern: &str) -> (r: Self)
        ensures
            r.id is None,
            r.condition matches CaptureCondition::Simple(s) && s.capture_type == CaptureType::Glob
                && s.pattern@ == pattern@ && s.method is None && s.host is None,
    {
        CaptureRule { id: None, condition: CaptureCondition::simple(pattern) }
    }

    /// A capture rule with the given condition.
    pub fn complex(condition: CaptureCondition) -> (r: Self)
        ensures
            r.id is None,
            r.condition == condition,
    {
        CaptureRule { id: None, condition }
    }

    /// The rule with its id set.
    pub fn with_id(self, id: i32) -> (r: Self)
        ensures
            r.id == Some(id),
            r.condition == self.condition,
    {
        let mut s = self;
        s.id = Some(id);
        s
    }
}

} // verus!
