//! Matching requests against capture rules, with a cache of compiled rules.
use vstd::prelude::*;
use std::collections::HashMap;
use crate::error::{ErrorModel, RequestProcessingError};
use crate::request_info::RequestInfo;
use crate::text::{eq_ignore_ascii_case, seq_contains, str_contains, str_eq, str_eq_ignore_ascii_case};
use crate::types::{
    CaptureCondition, CaptureRule, CaptureType, ConditionModel, LogicalOperator, RequestRule,
    RequestRuleModel, SimpleCaptureCondition, SimpleConditionModel, conditions_model,
    lemma_conditions_model,
};

verus! {

/// The message of the error that `glob::Pattern::new` reports for `pattern`; `None` when the
/// pattern compiles.
pub uninterp spec fn glob_compile_error(pattern: Seq<char>) -> Option<Seq<char>>;

/// Whether `text` matches the compiled glob `pattern` (`glob::Pattern::matches`).
pub uninterp spec fn glob_match(pattern: Seq<char>, text: Seq<char>) -> bool;

/// The message of the error that `regex::Regex::new` reports for `pattern`; `None` when the
/// expression compiles.
pub uninterp spec fn regex_compile_error(pattern: Seq<char>) -> Option<Seq<char>>;

/// Whether the compiled regular expression `pattern` matches somewhere in `text`
/// (`regex::Regex::is_match`).
pub uninterp spec fn regex_match(pattern: Seq<char>, text: Seq<char>) -> bool;

/// Compiles a glob pattern with `glob::Pattern::new`, keeping only whether it compiled and the
/// error's message.
#[verifier::external_body]
pub(crate) fn glob_compile(pattern: &str) -> (r: Result<(), String>)
    ensures
        r is Ok <==> glob_compile_error(pattern@) is None,
        r matches Err(m) ==> glob_compile_error(pattern@) == Some(m@),
{
    glob::Pattern::new(pattern).map(|_| ()).map_err(|e| e.to_string())
}

/// Compiles `pattern` with `glob::Pattern::new` and tests `text` with `Pattern::matches`;
/// false when the pattern does not compile.
#[verifier::external_body]
pub(crate) fn glob_is_match(pattern: &str, text: &str) -> (r: bool)
    ensures
        r == (glob_compile_error(pattern@) is None && glob_match(pattern@, text@)),
{
    match glob::Pattern::new(pattern) {
        Ok(p) => p.matches(text),
        Err(_) => false,
    }
}

/// Compiles a regular expression with `regex::Regex::new`, keeping only whether it compiled
/// and the error's message.
#[verifier::external_body]
pub(crate) fn regex_compile(pattern: &str) -> (r: Result<(), String>)
    ensures
        r is Ok <==> regex_compile_error(pattern@) is None,
        r matches Err(m) ==> regex_compile_error(pattern@) == Some(m@),
{
    regex::Regex::new(pattern).map(|_| ()).map_err(|e| e.to_string())
}

/// Compiles `pattern` with `regex::Regex::new` and tests `text` with `Regex::is_match`; false
/// when the expression does not compile.
#[verifier::external_body]
pub(crate) fn regex_is_match(pattern: &str, text: &str) -> (r: bool)
    ensures
        r == (regex_compile_error(pattern@) is None && regex_match(pattern@, text@)),
{
    match regex::Regex::new(pattern) {
        Ok(re) => re.is_match(text),
        Err(_) => false,
    }
}

/// A pattern ready for matching, by capture type.
#[derive(Debug)]
pub enum CompiledPattern {
    Glob(String),
    Regex(String),
    Exact(String),
    Contains(String),
}

/// A simple condition ready for matching.
#[derive(Debug)]
pub struct CompiledCaptureCondition {
    pub pattern: CompiledPattern,
    pub method: Option<String>,
    pub host: Option<String>,
}

/// A capture condition ready for matching.
#[derive(Debug)]
pub enum CompiledCaptureRule {
    Simple(CompiledCaptureCondition),
    Complex { operator: LogicalOperator, conditions: Vec<CompiledCaptureRule> },
}

/// A rule ready for matching, with the rule it was compiled from.
#[derive(Debug)]
pub struct CompiledRequestRule {
    pub id: Option<i32>,
    pub name: String,
    pub enabled: bool,
    pub priority: i32,
    pub capture: CompiledCaptureRule,
    pub original_rule: RequestRule,
}

/// The model of a compiled condition.
#[verifier::ext_equal]
pub enum CompiledModel {
    Simple(CompiledCaptureCondition),
    Complex(LogicalOperator, Seq<CompiledModel>),
}

/// The model of a compiled rule.
#[verifier::ext_equal]
pub struct CompiledRuleModel {
    pub id: Option<i32>,
    pub name: String,
    pub enabled: bool,
    pub priority: i32,
    pub capture: CompiledModel,
    pub original_rule: RequestRuleModel,
}

/// The model of a compiled condition.
pub open spec fn compiled_model(c: CompiledCaptureRule) -> CompiledModel
    decreases c, 0int,
{
    match c {
        CompiledCaptureRule::Simple(s) => CompiledModel::Simple(s),
        CompiledCaptureRule::Complex { operator, conditions } => CompiledModel::Complex(
            operator,
            compiled_models(conditions@),
        ),
    }
}

/// The models of a sequence of compiled conditions.
pub open spec fn compiled_models(s: Seq<CompiledCaptureRule>) -> Seq<CompiledModel>
    decreases s, 1int,
{
    if s.len() == 0 {
        Seq::empty()
    } else {
        compiled_models(s.subrange(0, s.len() - 1)).push(compiled_model(s[s.len() - 1]))
    }
}

/// The compiled models line up with the compiled conditions.
pub proof fn lemma_compiled_models(s: Seq<CompiledCaptureRule>)
    ensures
        compiled_models(s).len() == s.len(),
        forall|i: int| 0 <= i < s.len() ==> #[trigger] compiled_models(s)[i] == compiled_model(s[i]),
    decreases s.len(),
{
    if s.len() > 0 {
        lemma_compiled_models(s.subrange(0, s.len() - 1));
    }
}

impl View for CompiledCaptureRule {
    type V = CompiledModel;

    open spec fn view(&self) -> CompiledModel {
        compiled_model(*self)
    }
}

impl View for CompiledRequestRule {
    type V = CompiledRuleModel;

    open spec fn view(&self) -> CompiledRuleModel {
        CompiledRuleModel {
            id: self.id,
            name: self.name,
            enabled: self.enabled,
            priority: self.priority,
            capture: self.capture@,
            original_rule: self.original_rule@,
        }
    }
}

// ---------------------------------------------------------------------------------------
// Compilation
// ---------------------------------------------------------------------------------------

/// The compiled pattern for a capture type.
pub open spec fn compile_pattern(t: CaptureType, p: String) -> CompiledPattern {
    match t {
        CaptureType::Glob => CompiledPattern::Glob(p),
        CaptureType::Regex => CompiledPattern::Regex(p),
        CaptureType::Exact => CompiledPattern::Exact(p),
        CaptureType::Contains => CompiledPattern::Contains(p),
    }
}

/// The compiled form of a simple condition.
pub open spec fn compile_simple(s: SimpleConditionModel) -> CompiledCaptureCondition {
    CompiledCaptureCondition {
        pattern: compile_pattern(s.capture_type, s.pattern),
        method: s.method,
        host: s.host,
    }
}

/// The error of compiling a simple condition: a glob or a regular expression that does not
/// compile.
pub open spec fn simple_compile_error(s: SimpleConditionModel) -> Option<ErrorModel> {
    match s.capture_type {
        CaptureType::Glob => match glob_compile_error(s.pattern@) {
            Some(m) => Some(ErrorModel::PatternCompilation(m)),
            None => None,
        },
        CaptureType::Regex => match regex_compile_error(s.pattern@) {
            Some(m) => Some(ErrorModel::RegexCompilation(m)),
            None => None,
        },
        _ => None,
    }
}

/// The compiled form of a condition.
pub open spec fn compile_model(c: ConditionModel) -> CompiledModel
    decreases c, 0int,
{
    match c {
        ConditionModel::Simple(s) => CompiledModel::Simple(compile_simple(s)),
        ConditionModel::Complex(op, cs) => CompiledModel::Complex(op, compile_models(cs)),
    }
}

/// The compiled forms of a sequence of conditions.
pub open spec fn compile_models(cs: Seq<ConditionModel>) -> Seq<CompiledModel>
    decreases cs, 1int,
{
    if cs.len() == 0 {
        Seq::empty()
    } else {
        compile_models(cs.subrange(0, cs.len() - 1)).push(compile_model(cs[cs.len() - 1]))
    }
}

/// The first error, in document order, of compiling a condition tree.
pub open spec fn condition_compile_error(c: ConditionModel) -> Option<ErrorModel>
    decreases c, 0int,
{
    match c {
        ConditionModel::Simple(s) => simple_compile_error(s),
        ConditionModel::Complex(_, cs) => condition_compile_errors(cs),
    }
}

/// The first error of compiling a sequence of conditions.
pub open spec fn condition_compile_errors(cs: Seq<ConditionModel>) -> Option<ErrorModel>
    decreases cs, 1int,
{
    if cs.len() == 0 {
        None
    } else {
        match condition_compile_errors(cs.subrange(0, cs.len() - 1)) {
            Some(e) => Some(e),
            None => condition_compile_error(cs[cs.len() - 1]),
        }
    }
}

/// Once a prefix of the conditions has a compilation error, the whole sequence has that error.
pub proof fn lemma_compile_errors_prefix(cs: Seq<ConditionModel>, k: int)
    requires
        0 <= k <= cs.len(),
        condition_compile_errors(cs.take(k)) is Some,
    ensures
        condition_compile_errors(cs) == condition_compile_errors(cs.take(k)),
    decreases cs.len(),
{
    if k < cs.len() {
        let p = cs.subrange(0, cs.len() - 1);
        assert(p.take(k) =~= cs.take(k));
        lemma_compile_errors_prefix(p, k);
    } else {
        assert(cs.take(k) =~= cs);
    }
}

// ---------------------------------------------------------------------------------------
// Evaluation
// ---------------------------------------------------------------------------------------

/// Whether a compiled pattern matches `text`.
pub open spec fn pattern_matches(p: CompiledPattern, text: Seq<char>) -> bool {
    match p {
        CompiledPattern::Glob(s) => glob_compile_error(s@) is None && glob_match(s@, text),
        CompiledPattern::Regex(s) => regex_compile_error(s@) is None && regex_match(s@, text),
        CompiledPattern::Exact(s) => s@ == text,
        CompiledPattern::Contains(s) => seq_contains(text, s@),
    }
}

/// A filter holds when it is absent or empty, or equal to `value` up to ASCII case.
pub open spec fn filter_accepts(filter: Option<String>, value: Seq<char>) -> bool {
    match filter {
        Some(f) => f@.len() == 0 || eq_ignore_ascii_case(f@, value),
        None => true,
    }
}

/// Whether a compiled simple condition matches a request: method filter, host filter, and the
/// pattern against the URL.
pub open spec fn simple_matches(c: CompiledCaptureCondition, req: RequestInfo) -> bool {
    &&& filter_accepts(c.method, req.method@)
    &&& filter_accepts(c.host, req.host@)
    &&& pattern_matches(c.pattern, req.url@)
}

/// The error of a NOT with other than one sub-condition.
pub open spec fn not_arity_error() -> ErrorModel {
    ErrorModel::RuleValidation("NOT operator must have exactly one condition"@)
}

/// The outcome of evaluating a compiled condition against a request: AND and OR stop at the
/// first deciding sub-condition; NOT needs exactly one sub-condition.
pub open spec fn eval(c: CompiledModel, req: RequestInfo) -> Result<bool, ErrorModel>
    decreases c, 0int,
{
    match c {
        CompiledModel::Simple(s) => Ok(simple_matches(s, req)),
        CompiledModel::Complex(op, cs) => match op {
            LogicalOperator::And => eval_all(cs, req),
            LogicalOperator::Or => eval_any(cs, req),
            LogicalOperator::Not => if cs.len() != 1 {
                Err(not_arity_error())
            } else {
                match eval(cs[0], req) {
                    Ok(b) => Ok(!b),
                    Err(e) => Err(e),
                }
            },
        },
    }
}

/// AND over a sequence of conditions, from the first.
pub open spec fn eval_all(cs: Seq<CompiledModel>, req: RequestInfo) -> Result<bool, ErrorModel>
    decreases cs, 1int,
{
    if cs.len() == 0 {
        Ok(true)
    } else {
        match eval(cs[0], req) {
            Err(e) => Err(e),
            Ok(false) => Ok(false),
            Ok(true) => eval_all(cs.subrange(1, cs.len() as int), req),
        }
    }
}

/// OR over a sequence of conditions, from the first.
pub open spec fn eval_any(cs: Seq<CompiledModel>, req: RequestInfo) -> Result<bool, ErrorModel>
    decreases cs, 1int,
{
    if cs.len() == 0 {
        Ok(false)
    } else {
        match eval(cs[0], req) {
            Err(e) => Err(e),
            Ok(true) => Ok(true),
            Ok(false) => eval_any(cs.subrange(1, cs.len() as int), req),
        }
    }
}

/// The outcome of compiling a condition and evaluating it against a request.
pub open spec fn condition_outcome(c: ConditionModel, req: RequestInfo) -> Result<bool, ErrorModel> {
    match condition_compile_error(c) {
        Some(e) => Err(e),
        None => eval(compile_model(c), req),
    }
}

/// An executable result agrees with a modelled one.
pub open spec fn bool_result_is(r: Result<bool, RequestProcessingError>, s: Result<bool, ErrorModel>) -> bool {
    match r {
        Ok(b) => s == Ok::<bool, ErrorModel>(b),
        Err(e) => s == Err::<bool, ErrorModel>(e@),
    }
}

// ---------------------------------------------------------------------------------------
// Rule selection and ordering
// ---------------------------------------------------------------------------------------

/// The models of a sequence of rules.
pub open spec fn rules_model(s: Seq<RequestRule>) -> Seq<RequestRuleModel> {
    s.map_values(|r: RequestRule| r@)
}

/// Inserts `x` after every rule whose priority is at least its own.
pub open spec fn insert_desc(s: Seq<RequestRuleModel>, x: RequestRuleModel) -> Seq<RequestRuleModel>
    decreases s.len(),
{
    if s.len() == 0 {
        seq![x]
    } else if s.last().priority >= x.priority {
        s.push(x)
    } else {
        insert_desc(s.drop_last(), x).push(s.last())
    }
}

/// The rules ordered by priority, highest first; rules of equal priority keep their order.
pub open spec fn sort_desc(s: Seq<RequestRuleModel>) -> Seq<RequestRuleModel>
    decreases s.len(),
{
    if s.len() == 0 {
        s
    } else {
        insert_desc(sort_desc(s.drop_last()), s.last())
    }
}

/// The rules are ordered by priority, highest first.
pub open spec fn sorted_desc(s: Seq<RequestRuleModel>) -> bool {
    forall|i: int, j: int| 0 <= i < j < s.len() ==> (#[trigger] s[i]).priority >= (#[trigger] s[j]).priority
}

/// The original rules of the enabled compiled rules that match the request, in order; the first
/// evaluation error stops the selection.
pub open spec fn select(crs: Seq<CompiledRuleModel>, req: RequestInfo) -> Result<Seq<RequestRuleModel>, ErrorModel>
    decreases crs.len(),
{
    if crs.len() == 0 {
        Ok(Seq::empty())
    } else {
        match select(crs.drop_last(), req) {
            Err(e) => Err(e),
            Ok(acc) => {
                let c = crs.last();
                if !c.enabled {
                    Ok(acc)
                } else {
                    match eval(c.capture, req) {
                        Err(e) => Err(e),
                        Ok(true) => Ok(acc.push(c.original_rule)),
                        Ok(false) => Ok(acc),
                    }
                }
            },
        }
    }
}

/// The key under which a rule is cached (`-1` for a rule without id, which is never cached).
pub open spec fn rule_key(r: RequestRuleModel) -> i32 {
    match r.id {
        Some(i) => i,
        None => -1i32,
    }
}

/// Compiling a rule from scratch.
pub open spec fn fresh_compile(r: RequestRuleModel) -> Result<CompiledRuleModel, ErrorModel> {
    match condition_compile_error(r.capture.condition) {
        Some(e) => Err(e),
        None => Ok(
            CompiledRuleModel {
                id: r.id,
                name: r.name,
                enabled: r.enabled,
                priority: r.priority,
                capture: compile_model(r.capture.condition),
                original_rule: r,
            },
        ),
    }
}

/// The cache holds an entry for the rule's key with the rule's name and priority; that entry is
/// used in place of compiling the rule.
pub open spec fn cache_hit(cache: Map<i32, CompiledRuleModel>, r: RequestRuleModel) -> bool {
    &&& cache.dom().contains(rule_key(r))
    &&& cache[rule_key(r)].name@ == r.name@
    &&& cache[rule_key(r)].priority == r.priority
}

/// The cache and compiled rules after compiling one more rule.
pub open spec fn compile_step(
    state: (Map<i32, CompiledRuleModel>, Result<Seq<CompiledRuleModel>, ErrorModel>),
    r: RequestRuleModel,
) -> (Map<i32, CompiledRuleModel>, Result<Seq<CompiledRuleModel>, ErrorModel>) {
    let (cache, res) = state;
    match res {
        Err(e) => state,
        Ok(done) => if cache_hit(cache, r) {
            (cache, Ok(done.push(cache[rule_key(r)])))
        } else {
            match fresh_compile(r) {
                Err(e) => (cache, Err(e)),
                Ok(c) => (
                    if rule_key(r) >= 0 {
                        cache.insert(rule_key(r), c)
                    } else {
                        cache
                    },
                    Ok(done.push(c)),
                ),
            }
        },
    }
}

/// The cache and compiled rules after compiling a sequence of rules in order.
pub open spec fn compile_all(cache: Map<i32, CompiledRuleModel>, rules: Seq<RequestRuleModel>) -> (
    Map<i32, CompiledRuleModel>,
    Result<Seq<CompiledRuleModel>, ErrorModel>,
)
    decreases rules.len(),
{
    if rules.len() == 0 {
        (cache, Ok(Seq::empty()))
    } else {
        compile_step(compile_all(cache, rules.drop_last()), rules.last())
    }
}

/// The outcome of matching: compile every rule, select the matching enabled ones, order them by
/// priority.
pub open spec fn matching_outcome(
    cache: Map<i32, CompiledRuleModel>,
    rules: Seq<RequestRuleModel>,
    req: RequestInfo,
) -> Result<Seq<RequestRuleModel>, ErrorModel> {
    match compile_all(cache, rules).1 {
        Err(e) => Err(e),
        Ok(crs) => match select(crs, req) {
            Err(e) => Err(e),
            Ok(sel) => Ok(sort_desc(sel)),
        },
    }
}

/// An executable list of rules agrees with a modelled outcome.
pub open spec fn rules_result_is(
    r: Result<Vec<RequestRule>, RequestProcessingError>,
    s: Result<Seq<RequestRuleModel>, ErrorModel>,
) -> bool {
    match r {
        Ok(v) => s == Ok::<Seq<RequestRuleModel>, ErrorModel>(rules_model(v@)),
        Err(e) => s == Err::<Seq<RequestRuleModel>, ErrorModel>(e@),
    }
}

/// The models of a sequence of compiled rules.
pub open spec fn compiled_rules_model(s: Seq<CompiledRequestRule>) -> Seq<CompiledRuleModel> {
    s.map_values(|c: CompiledRequestRule| c@)
}

/// Once compiling a prefix of the rules fails, compiling all of them fails the same way and
/// leaves the same cache.
pub proof fn lemma_compile_all_prefix_err(
    cache: Map<i32, CompiledRuleModel>,
    rules: Seq<RequestRuleModel>,
    k: int,
)
    requires
        0 <= k <= rules.len(),
        compile_all(cache, rules.take(k)).1 is Err,
    ensures
        compile_all(cache, rules) == compile_all(cache, rules.take(k)),
    decreases rules.len(),
{
    if k < rules.len() {
        let p = rules.drop_last();
        assert(p.take(k) =~= rules.take(k));
        lemma_compile_all_prefix_err(cache, p, k);
    } else {
        assert(rules.take(k) =~= rules);
    }
}

/// Once selecting from a prefix of the compiled rules fails, selecting from all of them fails
/// the same way.
pub proof fn lemma_select_prefix_err(crs: Seq<CompiledRuleModel>, req: RequestInfo, k: int)
    requires
        0 <= k <= crs.len(),
        select(crs.take(k), req) is Err,
    ensures
        select(crs, req) == select(crs.take(k), req),
    decreases crs.len(),
{
    if k < crs.len() {
        let p = crs.drop_last();
        assert(p.take(k) =~= crs.take(k));
        lemma_select_prefix_err(p, req, k);
    } else {
        assert(crs.take(k) =~= crs);
    }
}

/// Inserting after the last rule whose priority is at least the new rule's.
pub proof fn lemma_insert_desc_at(s: Seq<RequestRuleModel>, x: RequestRuleModel, j: int)
    requires
        0 <= j <= s.len(),
        forall|k: int| j <= k < s.len() ==> (#[trigger] s[k]).priority < x.priority,
        j == 0 || s[j - 1].priority >= x.priority,
    ensures
        insert_desc(s, x) == s.insert(j, x),
    decreases s.len(),
{
    if s.len() == 0 {
        assert(s.insert(j, x) =~= seq![x]);
    } else if j == s.len() {
        assert(s.insert(j, x) =~= s.push(x));
    } else {
        let p = s.drop_last();
        lemma_insert_desc_at(p, x, j);
        assert(s.insert(j, x) =~= p.insert(j, x).push(s.last()));
    }
}

/// Inserting into a list ordered by priority keeps it ordered.
pub proof fn lemma_insert_desc_sorted(s: Seq<RequestRuleModel>, x: RequestRuleModel)
    requires
        sorted_desc(s),
    ensures
        sorted_desc(insert_desc(s, x)),
        insert_desc(s, x).len() == s.len() + 1,
        insert_desc(s, x).to_multiset() == s.to_multiset().insert(x),
    decreases s.len(),
{
    broadcast use vstd::seq_lib::group_to_multiset_ensures;
    if s.len() == 0 {
        assert(seq![x] =~= Seq::<RequestRuleModel>::empty().push(x));
    } else if s.last().priority >= x.priority {
    } else {
        let p = s.drop_last();
        assert(p.push(s.last()) =~= s);
        lemma_insert_desc_sorted(p, x);
        let q = insert_desc(p, x);
        assert forall|i: int, j: int| 0 <= i < j < q.len() + 1 implies (#[trigger] q.push(s.last())[i]).priority
            >= (#[trigger] q.push(s.last())[j]).priority by {
            if j == q.len() {
                assert(q.to_multiset().count(q[i]) > 0);
                assert(s.to_multiset().count(q[i]) > 0 || q[i] == x) by {
                    assert(q.to_multiset() == p.to_multiset().insert(x));
                    if q[i] != x {
                        assert(p.to_multiset().count(q[i]) > 0);
                        assert(p.contains(q[i]));
                        let k = choose|k: int| 0 <= k < p.len() && p[k] == q[i];
                        assert(s[k] == q[i]);
                    }
                };
                if q[i] != x {
                    assert(s.contains(q[i]));
                    let k = choose|k: int| 0 <= k < s.len() && s[k] == q[i];
                    if k < s.len() - 1 {
                        assert(s[k].priority >= s[s.len() - 1].priority);
                    }
                }
            }
        }
    }
}

/// Ordering by priority gives a list ordered by priority that holds the same rules.
pub proof fn lemma_sort_desc(s: Seq<RequestRuleModel>)
    ensures
        sorted_desc(sort_desc(s)),
        sort_desc(s).len() == s.len(),
        sort_desc(s).to_multiset() == s.to_multiset(),
    decreases s.len(),
{
    broadcast use vstd::seq_lib::group_to_multiset_ensures;
    if s.len() > 0 {
        lemma_sort_desc(s.drop_last());
        lemma_insert_desc_sorted(sort_desc(s.drop_last()), s.last());
        assert(s.drop_last().push(s.last()) =~= s);
    }
}

// ---------------------------------------------------------------------------------------
// The cache
// ---------------------------------------------------------------------------------------


/// A copy of a compiled condition.
pub fn clone_compiled(c: &CompiledCaptureRule) -> (r: CompiledCaptureRule)
    ensures
        r@ == c@,
    decreases c,
{
    match c {
        CompiledCaptureRule::Simple(s) => CompiledCaptureRule::Simple(
            CompiledCaptureCondition {
                pattern: clone_pattern(&s.pattern),
                method: crate::text::clone_opt_string(&s.method),
                host: crate::text::clone_opt_string(&s.host),
            },
        ),
        CompiledCaptureRule::Complex { operator, conditions } => {
            let mut out: Vec<CompiledCaptureRule> = Vec::new();
            let mut i: usize = 0;
            while i < conditions.len()
                invariant
                    *c == (CompiledCaptureRule::Complex { operator: *operator, conditions: *conditions }),
                    i <= conditions@.len(),
                    out@.len() == i,
                    forall|j: int| 0 <= j < i ==> (#[trigger] out@[j])@ == conditions@[j]@,
                decreases conditions.len() - i,
            {
                proof {
                    assert(decreases_to!(*c => (*c)->conditions));
                    assert(decreases_to!(*conditions => conditions@[i as int]));
                }
                let x = clone_compiled(&conditions[i]);
                out.push(x);
                i = i + 1;
            }
            proof {
                lemma_compiled_models(out@);
                lemma_compiled_models(conditions@);
                assert(compiled_models(out@) =~= compiled_models(conditions@));
            }
            let r = CompiledCaptureRule::Complex { operator: *operator, conditions: out };
            assert(r@ =~= c@);
            r
        },
    }
}

fn clone_pattern(p: &CompiledPattern) -> (r: CompiledPattern)
    ensures
        r == *p,
{
    match p {
        CompiledPattern::Glob(s) => CompiledPattern::Glob(s.clone()),
        CompiledPattern::Regex(s) => CompiledPattern::Regex(s.clone()),
        CompiledPattern::Exact(s) => CompiledPattern::Exact(s.clone()),
        CompiledPattern::Contains(s) => CompiledPattern::Contains(s.clone()),
    }
}

impl Clone for CompiledRequestRule {
    fn clone(&self) -> (r: Self)
        ensures
            r@ == self@,
    {
        CompiledRequestRule {
            id: self.id,
            name: self.name.clone(),
            enabled: self.enabled,
            priority: self.priority,
            capture: clone_compiled(&self.capture),
            original_rule: self.original_rule.clone(),
        }
    }
}

impl CompiledPattern {
    /// Whether the pattern matches `text`.
    pub fn matches(&self, text: &str) -> (r: bool)
        ensures
            r == pattern_matches(*self, text@),
    {
        match self {
            CompiledPattern::Glob(p) => glob_is_match(p.as_str(), text),
            CompiledPattern::Regex(p) => regex_is_match(p.as_str(), text),
            CompiledPattern::Exact(p) => str_eq(p.as_str(), text),
            CompiledPattern::Contains(p) => str_contains(text, p.as_str()),
        }
    }
}

/// Matches requests against rules, caching compiled rules by rule id.
#[derive(Debug)]
pub struct RuleMatcher {
    cache: HashMap<i32, CompiledRequestRule>,
}

impl View for RuleMatcher {
    type V = Map<i32, CompiledRuleModel>;

    closed spec fn view(&self) -> Map<i32, CompiledRuleModel> {
        self.cache@.map_values(|c: CompiledRequestRule| c@)
    }
}

impl Default for RuleMatcher {
    fn default() -> (r: Self)
        ensures
            r@ == Map::<i32, CompiledRuleModel>::empty(),
    {
        RuleMatcher::new()
    }
}

impl RuleMatcher {
    /// A matcher with an empty cache.
    pub fn new() -> (r: Self)
        ensures
            r@ == Map::<i32, CompiledRuleModel>::empty(),
    {
        let r = RuleMatcher { cache: HashMap::new() };
        assert(r@ =~= Map::<i32, CompiledRuleModel>::empty());
        r
    }

    /// Empties the cache.
    pub fn clear_cache(&mut self)
        ensures
            final(self)@ == Map::<i32, CompiledRuleModel>::empty(),
    {
        self.cache.clear();
        assert(self@ =~= Map::<i32, CompiledRuleModel>::empty());
    }

    /// Removes the cached entry of one rule.
    pub fn invalidate_rule(&mut self, rule_id: i32)
        ensures
            final(self)@ == old(self)@.remove(rule_id),
    {
        broadcast use vstd::std_specs::hash::group_hash_axioms;

        let ghost before = self@;
        let _ = self.cache.remove(&rule_id);
        assert(self@ =~= before.remove(rule_id));
    }

    fn cache_insert(&mut self, key: i32, value: CompiledRequestRule)
        ensures
            final(self)@ == old(self)@.insert(key, value@),
    {
        broadcast use vstd::std_specs::hash::group_hash_axioms;

        let ghost before = self@;
        let ghost v = value@;
        let _ = self.cache.insert(key, value);
        assert(self@ =~= before.insert(key, v));
    }

    /// A copy of the cached entry for `key`, if any.
    fn cache_get(&self, key: i32) -> (r: Option<CompiledRequestRule>)
        ensures
            r is Some <==> self@.dom().contains(key),
            r matches Some(c) ==> c@ == self@[key],
    {
        broadcast use vstd::std_specs::hash::group_hash_axioms;

        match self.cache.get(&key) {
            Some(c) => Some(c.clone()),
            None => None,
        }
    }

    /// Compiles a simple condition: globs and regular expressions must compile.
    fn compile_simple_condition(condition: &SimpleCaptureCondition) -> (r: Result<
        CompiledCaptureCondition,
        RequestProcessingError,
    >)
        ensures
            match simple_compile_error(condition@) {
                Some(e) => r matches Err(x) && x@ == e,
                None => r matches Ok(c) && c == compile_simple(condition@),
            },
    {
        let pattern = match condition.capture_type {
            CaptureType::Glob => {
                match glob_compile(condition.pattern.as_str()) {
                    Ok(()) => CompiledPattern::Glob(condition.pattern.clone()),
                    Err(message) => {
                        return Err(RequestProcessingError::PatternCompilation { message });
                    },
                }
            },
            CaptureType::Regex => {
                match regex_compile(condition.pattern.as_str()) {
                    Ok(()) => CompiledPattern::Regex(condition.pattern.clone()),
                    Err(message) => {
                        return Err(RequestProcessingError::RegexCompilation { message });
                    },
                }
            },
            CaptureType::Exact => CompiledPattern::Exact(condition.pattern.clone()),
            CaptureType::Contains => CompiledPattern::Contains(condition.pattern.clone()),
        };
        Ok(
            CompiledCaptureCondition {
                pattern,
                method: crate::text::clone_opt_string(&condition.method),
                host: crate::text::clone_opt_string(&condition.host),
            },
        )
    }

    /// Compiles a condition tree; the first pattern that does not compile is the error.
    fn compile_capture_condition(condition: &CaptureCondition) -> (r: Result<
        CompiledCaptureRule,
        RequestProcessingError,
    >)
        ensures
            match condition_compile_error(condition@) {
                Some(e) => r matches Err(x) && x@ == e,
                None => r matches Ok(c) && c@ == compile_model(condition@),
            },
        decreases condition,
    {
        match condition {
            CaptureCondition::Simple(simple) => {
                let c = Self::compile_simple_condition(simple)?;
                Ok(CompiledCaptureRule::Simple(c))
            },
            CaptureCondition::Complex(complex) => {
                let ghost cms = conditions_model(complex.conditions@);
                proof {
                    lemma_conditions_model(complex.conditions@);
                    assert(cms.take(0) =~= Seq::<ConditionModel>::empty());
                }
                let mut out: Vec<CompiledCaptureRule> = Vec::new();
                let mut i: usize = 0;
                while i < complex.conditions.len()
                    invariant
                        *condition == CaptureCondition::Complex(*complex),
                        cms == conditions_model(complex.conditions@),
                        cms.len() == complex.conditions@.len(),
                        forall|j: int| 0 <= j < cms.len() ==> #[trigger] cms[j] == complex.conditions@[j]@,
                        i <= complex.conditions@.len(),
                        condition_compile_errors(cms.take(i as int)) is None,
                        compiled_models(out@) == compile_models(cms.take(i as int)),
                    decreases complex.conditions.len() - i,
                {
                    proof {
                        assert(decreases_to!(*condition => (*condition)->Complex_0));
                        assert(decreases_to!(*complex => complex.conditions));
                        assert(decreases_to!(complex.conditions => complex.conditions@[i as int]));
                        assert(cms.take(i + 1).subrange(0, i as int) =~= cms.take(i as int));
                        assert(cms.take(i + 1)[i as int] == cms[i as int]);
                    }
                    let c = match Self::compile_capture_condition(&complex.conditions[i]) {
                        Ok(c) => c,
                        Err(e) => {
                            proof {
                                lemma_compile_errors_prefix(cms, i + 1);
                            }
                            return Err(e);
                        },
                    };
                    proof {
                        assert(out@.push(c).subrange(0, out@.len() as int) =~= out@);
                    }
                    out.push(c);
                    i = i + 1;
                }
                proof {
                    assert(cms.take(i as int) =~= cms);
                }
                let r = CompiledCaptureRule::Complex { operator: complex.operator, conditions: out };
                assert(r@ =~= compile_model(condition@));
                Ok(r)
            },
        }
    }

    /// Whether a compiled simple condition matches the request.
    fn compiled_simple_matches(condition: &CompiledCaptureCondition, request: &RequestInfo) -> (r: bool)
        ensures
            r == simple_matches(*condition, *request),
    {
        if let Some(method) = &condition.method {
            if !method.as_str().is_empty() && !str_eq_ignore_ascii_case(method.as_str(), request.method.as_str()) {
                return false;
            }
        }
        if let Some(host) = &condition.host {
            if !host.as_str().is_empty() && !str_eq_ignore_ascii_case(host.as_str(), request.host.as_str()) {
                return false;
            }
        }
        condition.pattern.matches(request.url.as_str())
    }

    /// Evaluates a compiled condition against the request.
    fn compiled_capture_matches(capture: &CompiledCaptureRule, request: &RequestInfo) -> (r: Result<
        bool,
        RequestProcessingError,
    >)
        ensures
            bool_result_is(r, eval(capture@, *request)),
        decreases capture,
    {
        match capture {
            CompiledCaptureRule::Simple(simple) => Ok(Self::compiled_simple_matches(simple, request)),
            CompiledCaptureRule::Complex { operator, conditions } => {
                let ghost cs = compiled_models(conditions@);
                proof {
                    lemma_compiled_models(conditions@);
                }
                match operator {
                    LogicalOperator::And => {
                        let mut i: usize = 0;
                        proof {
                            assert(cs.subrange(0, cs.len() as int) =~= cs);
                        }
                        while i < conditions.len()
                            invariant
                                *capture == (CompiledCaptureRule::Complex { operator: *operator, conditions: *conditions }),
                                *operator == LogicalOperator::And,
                                cs == compiled_models(conditions@),
                                cs.len() == conditions@.len(),
                                forall|j: int| 0 <= j < cs.len() ==> #[trigger] cs[j] == conditions@[j]@,
                                i <= conditions@.len(),
                                eval_all(cs, *request) == eval_all(cs.subrange(i as int, cs.len() as int), *request),
                            decreases conditions.len() - i,
                        {
                            proof {
                                assert(decreases_to!(*capture => (*capture)->conditions));
                                assert(decreases_to!(*conditions => conditions@[i as int]));
                                let rest = cs.subrange(i as int, cs.len() as int);
                                assert(rest[0] == cs[i as int]);
                                assert(rest.subrange(1, rest.len() as int) =~= cs.subrange(i + 1, cs.len() as int));
                            }
                            let b = Self::compiled_capture_matches(&conditions[i], request)?;
                            if !b {
                                return Ok(false);
                            }
                            i = i + 1;
                        }
                        Ok(true)
                    },
                    LogicalOperator::Or => {
                        let mut i: usize = 0;
                        proof {
                            assert(cs.subrange(0, cs.len() as int) =~= cs);
                        }
                        while i < conditions.len()
                            invariant
                                *capture == (CompiledCaptureRule::Complex { operator: *operator, conditions: *conditions }),
                                *operator == LogicalOperator::Or,
                                cs == compiled_models(conditions@),
                                cs.len() == conditions@.len(),
                                forall|j: int| 0 <= j < cs.len() ==> #[trigger] cs[j] == conditions@[j]@,
                                i <= conditions@.len(),
                                eval_any(cs, *request) == eval_any(cs.subrange(i as int, cs.len() as int), *request),
                            decreases conditions.len() - i,
                        {
                            proof {
                                assert(decreases_to!(*capture => (*capture)->conditions));
                                assert(decreases_to!(*conditions => conditions@[i as int]));
                                let rest = cs.subrange(i as int, cs.len() as int);
                                assert(rest[0] == cs[i as int]);
                                assert(rest.subrange(1, rest.len() as int) =~= cs.subrange(i + 1, cs.len() as int));
                            }
                            let b = Self::compiled_capture_matches(&conditions[i], request)?;
                            if b {
                                return Ok(true);
                            }
                            i = i + 1;
                        }
                        Ok(false)
                    },
                    LogicalOperator::Not => {
                        if conditions.len() != 1 {
                            return Err(RequestProcessingError::rule_validation(
                                "NOT operator must have exactly one condition",
                            ));
                        }
                        proof {
                            assert(decreases_to!(*capture => (*capture)->conditions));
                            assert(decreases_to!(*conditions => conditions@[0]));
                        }
                        let b = Self::compiled_capture_matches(&conditions[0], request)?;
                        Ok(!b)
                    },
                }
            },
        }
    }

    /// Compiles a rule from scratch.
    fn compile_rule(rule: &RequestRule) -> (r: Result<CompiledRequestRule, RequestProcessingError>)
        ensures
            match fresh_compile(rule@) {
                Err(e) => r matches Err(x) && x@ == e,
                Ok(c) => r matches Ok(x) && x@ == c,
            },
    {
        let capture = Self::compile_capture_condition(&rule.capture.condition)?;
        let r = CompiledRequestRule {
            id: rule.id,
            name: rule.name.clone(),
            enabled: rule.enabled,
            priority: rule.priority,
            capture,
            original_rule: rule.clone(),
        };
        assert(r@ =~= fresh_compile(rule@)->Ok_0);
        Ok(r)
    }

    /// Compiles the rules in order, reusing a cached compilation when the cache holds the rule's
    /// id with the same name and priority, and caching every fresh compilation of a rule with an
    /// id.
    fn compile_rules(&mut self, rules: &[RequestRule]) -> (r: Result<
        Vec<CompiledRequestRule>,
        RequestProcessingError,
    >)
        ensures
            final(self)@ == compile_all(old(self)@, rules_model(rules@)).0,
            match compile_all(old(self)@, rules_model(rules@)).1 {
                Err(e) => r matches Err(x) && x@ == e,
                Ok(crs) => r matches Ok(v) && compiled_rules_model(v@) == crs,
            },
    {
        let ghost cache0 = self@;
        let ghost rms = rules_model(rules@);
        let mut out: Vec<CompiledRequestRule> = Vec::new();
        let mut i: usize = 0;
        proof {
            assert(rms.take(0) =~= Seq::<RequestRuleModel>::empty());
            assert(compiled_rules_model(out@) =~= Seq::<CompiledRuleModel>::empty());
        }
        while i < rules.len()
            invariant
                rms == rules_model(rules@),
                cache0 == old(self)@,
                i <= rules@.len(),
                self@ == compile_all(cache0, rms.take(i as int)).0,
                compile_all(cache0, rms.take(i as int)).1 == Ok::<Seq<CompiledRuleModel>, ErrorModel>(
                    compiled_rules_model(out@),
                ),
            decreases rules.len() - i,
        {
            let rule = &rules[i];
            proof {
                assert(rms.take(i + 1).drop_last() =~= rms.take(i as int));
                assert(rms.take(i + 1).last() == rule@);
            }
            let key: i32 = match rule.id {
                Some(id) => id,
                None => -1,
            };
            let cached = self.cache_get(key);
            let hit = match &cached {
                Some(c) => c.name == rule.name && c.priority == rule.priority,
                None => false,
            };
            if hit {
                let c = cached.unwrap();
                proof {
                    assert(compiled_rules_model(out@.push(c)) =~= compiled_rules_model(out@).push(c@));
                }
                out.push(c);
            } else {
                let compiled = match Self::compile_rule(rule) {
                    Ok(c) => c,
                    Err(e) => {
                        proof {
                            assert(rule_key(rule@) == key);
                            assert(!cache_hit(self@, rule@));
                            assert(compile_all(cache0, rms.take(i + 1)) == compile_step(
                                compile_all(cache0, rms.take(i as int)),
                                rule@,
                            ));
                            assert(compile_all(cache0, rms.take(i + 1)).1 == Err::<Seq<CompiledRuleModel>, ErrorModel>(e@));
                            lemma_compile_all_prefix_err(cache0, rms, i + 1);
                        }
                        return Err(e);
                    },
                };
                if key >= 0 {
                    let copy = compiled.clone();
                    self.cache_insert(key, copy);
                }
                proof {
                    assert(compiled_rules_model(out@.push(compiled)) =~= compiled_rules_model(out@).push(
                        compiled@,
                    ));
                }
                out.push(compiled);
            }
            i = i + 1;
        }
        proof {
            assert(rms.take(rules.len() as int) =~= rms);
        }
        Ok(out)
    }

    /// Inserts a rule after every rule whose priority is at least its own.
    fn insert_by_priority(sorted: &mut Vec<RequestRule>, x: RequestRule)
        ensures
            rules_model(final(sorted)@) == insert_desc(rules_model(old(sorted)@), x@),
    {
        let mut j = sorted.len();
        while j > 0 && sorted[j - 1].priority < x.priority
            invariant
                j <= sorted@.len(),
                forall|k: int| j <= k < sorted@.len() ==> (#[trigger] sorted@[k]).priority < x.priority,
            decreases j,
        {
            j = j - 1;
        }
        proof {
            let m = rules_model(sorted@);
            lemma_insert_desc_at(m, x@, j as int);
            assert(rules_model(sorted@.insert(j as int, x)) =~= m.insert(j as int, x@));
        }
        sorted.insert(j, x);
    }

    /// The rules that match the request, highest priority first (rules of equal priority in
    /// their given order). Every rule is compiled first, through the cache; the first pattern
    /// that does not compile, or the first NOT with other than one sub-condition among the
    /// enabled rules, is the error.
    pub fn find_matching_rules(&mut self, rules: &[RequestRule], request: &RequestInfo) -> (r: Result<
        Vec<RequestRule>,
        RequestProcessingError,
    >)
        ensures
            final(self)@ == compile_all(old(self)@, rules_model(rules@)).0,
            rules_result_is(r, matching_outcome(old(self)@, rules_model(rules@), *request)),
    {
        let compiled_rules = self.compile_rules(rules)?;
        let ghost crs = compiled_rules_model(compiled_rules@);
        let mut sorted: Vec<RequestRule> = Vec::new();
        let mut i: usize = 0;
        proof {
            assert(crs.take(0) =~= Seq::<CompiledRuleModel>::empty());
            assert(rules_model(sorted@) =~= Seq::<RequestRuleModel>::empty());
        }
        while i < compiled_rules.len()
            invariant
                crs == compiled_rules_model(compiled_rules@),
                self@ == compile_all(old(self)@, rules_model(rules@)).0,
                compile_all(old(self)@, rules_model(rules@)).1 == Ok::<Seq<CompiledRuleModel>, ErrorModel>(crs),
                i <= compiled_rules@.len(),
                select(crs.take(i as int), *request) is Ok,
                rules_model(sorted@) == sort_desc(select(crs.take(i as int), *request)->Ok_0),
            decreases compiled_rules.len() - i,
        {
            let compiled_rule = &compiled_rules[i];
            proof {
                assert(crs.take(i + 1).drop_last() =~= crs.take(i as int));
                assert(crs.take(i + 1).last() == compiled_rule@);
            }
            if compiled_rule.enabled {
                match Self::compiled_capture_matches(&compiled_rule.capture, request) {
                    Err(e) => {
                        proof {
                            assert(select(crs.take(i + 1), *request) == Err::<Seq<RequestRuleModel>, ErrorModel>(e@));
                            lemma_select_prefix_err(crs, *request, i + 1);
                        }
                        return Err(e);
                    },
                    Ok(true) => {
                        let x = compiled_rule.original_rule.clone();
                        let ghost acc = select(crs.take(i as int), *request)->Ok_0;
                        proof {
                            assert(select(crs.take(i + 1), *request) == Ok::<Seq<RequestRuleModel>, ErrorModel>(acc.push(x@)));
                            assert(acc.push(x@).drop_last() =~= acc);
                        }
                        Self::insert_by_priority(&mut sorted, x);
                    },
                    Ok(false) => {
                        assert(select(crs.take(i + 1), *request) == select(crs.take(i as int), *request));
                    },
                }
            } else {
                assert(select(crs.take(i + 1), *request) == select(crs.take(i as int), *request));
            }
            i = i + 1;
        }
        proof {
            assert(crs.take(compiled_rules.len() as int) =~= crs);
        }
        Ok(sorted)
    }

    /// Whether a capture rule matches the request (compiled afresh, without the cache).
    pub fn capture_matches(&self, capture: &CaptureRule, request: &RequestInfo) -> (r: Result<
        bool,
        RequestProcessingError,
    >)
        ensures
            bool_result_is(r, condition_outcome(capture@.condition, *request)),
    {
        let compiled = Self::compile_capture_condition(&capture.condition)?;
        Self::compiled_capture_matches(&compiled, request)
    }

    /// Whether a capture condition matches the request (compiled afresh, without the cache).
    pub fn evaluate_condition(&self, condition: &CaptureCondition, request: &RequestInfo) -> (r: Result<
        bool,
        RequestProcessingError,
    >)
        ensures
            bool_result_is(r, condition_outcome(condition@, *request)),
    {
        let compiled = Self::compile_capture_condition(condition)?;
        Self::compiled_capture_matches(&compiled, request)
    }
}


// ---------------------------------------------------------------------------------------
// Laws
// ---------------------------------------------------------------------------------------

/// Matching returns its rules ordered by priority, highest first, and returns each rule that
/// the selection found exactly as often as the selection found it.
pub proof fn law_matching_ordered_by_priority(
    cache: Map<i32, CompiledRuleModel>,
    rules: Seq<RequestRuleModel>,
    req: RequestInfo,
)
    ensures
        matching_outcome(cache, rules, req) matches Ok(out) ==> {
            &&& sorted_desc(out)
            &&& out.to_multiset() == select(compile_all(cache, rules).1->Ok_0, req)->Ok_0.to_multiset()
        },
{
    if let Ok(crs) = compile_all(cache, rules).1 {
        if let Ok(sel) = select(crs, req) {
            lemma_sort_desc(sel);
        }
    }
}

/// A NOT over one condition gives the opposite answer of that condition, and fails exactly when
/// that condition fails, with the same error.
pub proof fn law_not_inverts(c: ConditionModel, req: RequestInfo)
    ensures
        condition_outcome(ConditionModel::Complex(LogicalOperator::Not, seq![c]), req) == match condition_outcome(c, req) {
            Ok(b) => Ok::<bool, ErrorModel>(!b),
            Err(e) => Err(e),
        },
{
    let one = seq![c];
    let n = ConditionModel::Complex(LogicalOperator::Not, one);
    assert(one.len() == 1 && one[0] == c);
    assert(one.subrange(0, 0) =~= Seq::<ConditionModel>::empty());
    assert(condition_compile_errors(one.subrange(0, 0)) is None);
    assert(condition_compile_errors(one) == condition_compile_error(c));
    assert(compile_models(one.subrange(0, 0)) =~= Seq::<CompiledModel>::empty());
    assert(compile_models(one) =~= seq![compile_model(c)]);
}


/// No two rules carry the same id.
pub open spec fn distinct_rule_ids(rules: Seq<RequestRuleModel>) -> bool {
    forall|i: int, j: int|
        0 <= i < j < rules.len() && (#[trigger] rules[i]).id is Some && (#[trigger] rules[j]).id is Some
            ==> rules[i].id != rules[j].id
}

/// What compiling the first `m` rules from the cache `c` leaves in a cache and a list: each
/// cached rule's entry is its compiled rule, and entries under negative keys are those of `c`.
spec fn cache_agrees(
    cache: Map<i32, CompiledRuleModel>,
    c: Map<i32, CompiledRuleModel>,
    rules: Seq<RequestRuleModel>,
    list: Seq<CompiledRuleModel>,
    m: int,
) -> bool {
    &&& list.len() == m
    &&& forall|j: int|
        #![trigger rules[j]]
        0 <= j < m && rule_key(rules[j]) >= 0 ==> {
            &&& cache.dom().contains(rule_key(rules[j]))
            &&& cache[rule_key(rules[j])] == list[j]
            &&& list[j].name@ == rules[j].name@
            &&& list[j].priority == rules[j].priority
        }
    &&& forall|j: int|
        #![trigger rules[j]]
        0 <= j < m && rule_key(rules[j]) < 0 ==> if cache_hit(c, rules[j]) {
            list[j] == c[rule_key(rules[j])]
        } else {
            fresh_compile(rules[j]) == Ok::<CompiledRuleModel, ErrorModel>(list[j])
        }
    &&& forall|k: i32|
        k < 0 ==> (#[trigger] cache.dom().contains(k) <==> c.dom().contains(k)) && (c.dom().contains(k)
            ==> cache[k] == c[k])
}

proof fn lemma_compile_all_take_step(c: Map<i32, CompiledRuleModel>, rules: Seq<RequestRuleModel>, m: int)
    requires
        0 < m <= rules.len(),
    ensures
        compile_all(c, rules.take(m)) == compile_step(compile_all(c, rules.take(m - 1)), rules[m - 1]),
{
    assert(rules.take(m).drop_last() =~= rules.take(m - 1));
    assert(rules.take(m).last() == rules[m - 1]);
}

/// Compiling the first `m` rules without error leaves a cache and a list that agree.
proof fn lemma_first_pass(c: Map<i32, CompiledRuleModel>, rules: Seq<RequestRuleModel>, m: int)
    requires
        distinct_rule_ids(rules),
        0 <= m <= rules.len(),
        compile_all(c, rules.take(m)).1 is Ok,
    ensures
        cache_agrees(compile_all(c, rules.take(m)).0, c, rules, compile_all(c, rules.take(m)).1->Ok_0, m),
    decreases m,
{
    if m == 0 {
        assert(rules.take(0) =~= Seq::<RequestRuleModel>::empty());
    } else {
        lemma_compile_all_take_step(c, rules, m);
        let prev = compile_all(c, rules.take(m - 1));
        let r = rules[m - 1];
        let key = rule_key(r);
        assert(prev.1 is Ok);
        lemma_first_pass(c, rules, m - 1);
        let s0 = prev.0;
        let l0 = prev.1->Ok_0;
        let s1 = compile_all(c, rules.take(m)).0;
        let l1 = compile_all(c, rules.take(m)).1->Ok_0;
        assert(l1.take(m - 1) =~= l0);
        assert forall|j: int|
            #![trigger rules[j]]
            0 <= j < m && rule_key(rules[j]) >= 0 implies {
                &&& s1.dom().contains(rule_key(rules[j]))
                &&& s1[rule_key(rules[j])] == l1[j]
                &&& l1[j].name@ == rules[j].name@
                &&& l1[j].priority == rules[j].priority
            } by {
            if j < m - 1 {
                assert(l1[j] == l0[j]);
                if key >= 0 && !cache_hit(s0, r) {
                    assert(rules[j].id != r.id);
                }
            }
        }
        assert forall|j: int|
            #![trigger rules[j]]
            0 <= j < m && rule_key(rules[j]) < 0 implies if cache_hit(c, rules[j]) {
                l1[j] == c[rule_key(rules[j])]
            } else {
                fresh_compile(rules[j]) == Ok::<CompiledRuleModel, ErrorModel>(l1[j])
            } by {
            if j < m - 1 {
                assert(l1[j] == l0[j]);
            } else {
                assert(s0.dom().contains(key) <==> c.dom().contains(key));
            }
        }
        assert(l1.len() == m);
        assert forall|k: i32| k < 0 implies (#[trigger] s1.dom().contains(k) <==> c.dom().contains(k)) && (
        c.dom().contains(k) ==> s1[k] == c[k]) by {
            assert(s0.dom().contains(k) <==> c.dom().contains(k));
        }
    }
}

/// From a cache that agrees with the first `m` rules, compiling them again uses the cache for
/// each and leaves it as it is.
proof fn lemma_second_pass(
    cache: Map<i32, CompiledRuleModel>,
    c: Map<i32, CompiledRuleModel>,
    rules: Seq<RequestRuleModel>,
    list: Seq<CompiledRuleModel>,
    m: int,
    k: int,
)
    requires
        0 <= k <= m <= rules.len(),
        cache_agrees(cache, c, rules, list, m),
    ensures
        compile_all(cache, rules.take(k)) == (cache, Ok::<Seq<CompiledRuleModel>, ErrorModel>(list.take(k))),
    decreases k,
{
    if k == 0 {
        assert(rules.take(0) =~= Seq::<RequestRuleModel>::empty());
        assert(list.take(0) =~= Seq::<CompiledRuleModel>::empty());
    } else {
        lemma_compile_all_take_step(cache, rules, k);
        lemma_second_pass(cache, c, rules, list, m, k - 1);
        let r = rules[k - 1];
        let key = rule_key(r);
        assert(list.take(k - 1).push(list[k - 1]) =~= list.take(k));
        if key < 0 {
            assert(cache.dom().contains(key) <==> c.dom().contains(key));
        }
    }
}

/// Matching the same rules a second time, with the cache the first time left, compiles the
/// same rules, leaves the cache as it was, and gives the same outcome (for rules whose ids
/// differ).
pub proof fn law_matching_again_reuses_the_cache(
    cache: Map<i32, CompiledRuleModel>,
    rules: Seq<RequestRuleModel>,
    req: RequestInfo,
)
    requires
        distinct_rule_ids(rules),
    ensures
        compile_all(compile_all(cache, rules).0, rules) == compile_all(cache, rules),
        matching_outcome(compile_all(cache, rules).0, rules, req) == matching_outcome(cache, rules, req),
    decreases rules.len(),
{
    let n = rules.len() as int;
    assert(rules.take(n) =~= rules);
    if compile_all(cache, rules).1 is Ok {
        lemma_first_pass(cache, rules, n);
        let first = compile_all(cache, rules);
        lemma_second_pass(first.0, cache, rules, first.1->Ok_0, n, n);
        assert(first.1->Ok_0.take(n) =~= first.1->Ok_0);
    } else if n > 0 {
        let p = rules.drop_last();
        assert(distinct_rule_ids(p)) by {
            assert forall|i: int, j: int|
                0 <= i < j < p.len() && (#[trigger] p[i]).id is Some && (#[trigger] p[j]).id is Some implies p[i].id
                    != p[j].id by {
                assert(p[i] == rules[i] && p[j] == rules[j]);
            }
        }
        let before = compile_all(cache, p);
        if before.1 is Err {
            law_matching_again_reuses_the_cache(cache, p, req);
        } else {
            assert(rules.take(n - 1) =~= p);
            lemma_first_pass(cache, rules, n - 1);
            lemma_second_pass(before.0, cache, rules, before.1->Ok_0, n - 1, n - 1);
            assert(before.1->Ok_0.take(n - 1) =~= before.1->Ok_0);
        }
    }
}

/// The given rules that are enabled and whose condition holds for the request, in order.
pub open spec fn enabled_matches(rules: Seq<RequestRuleModel>, req: RequestInfo) -> Seq<RequestRuleModel> {
    rules.filter(|r: RequestRuleModel| r.enabled && condition_outcome(r.capture.condition, req) == Ok::<bool, ErrorModel>(true))
}

/// Every entry of the cache that a rule would be served from is what compiling that rule
/// afresh gives: no rule is served a stale compilation.
pub open spec fn cache_consistent(cache: Map<i32, CompiledRuleModel>, rules: Seq<RequestRuleModel>) -> bool {
    forall|j: int|
        0 <= j < rules.len() && cache_hit(cache, #[trigger] rules[j]) ==> fresh_compile(rules[j])
            == Ok::<CompiledRuleModel, ErrorModel>(cache[rule_key(rules[j])])
}

/// From a consistent cache, rules with distinct ids compile without error exactly when each
/// compiles afresh, each to its fresh compilation; every key of the cache afterwards was in the
/// cache before, with the same entry, or is the key of a rule compiled so far.
proof fn lemma_consistent_pass(cache: Map<i32, CompiledRuleModel>, rules: Seq<RequestRuleModel>, k: int)
    requires
        distinct_rule_ids(rules),
        cache_consistent(cache, rules),
        0 <= k <= rules.len(),
    ensures
        compile_all(cache, rules.take(k)).1 is Ok <==> forall|j: int| 0 <= j < k ==> (#[trigger] fresh_compile(rules[j])) is Ok,
        compile_all(cache, rules.take(k)).1 is Ok ==> {
            &&& compile_all(cache, rules.take(k)).1->Ok_0.len() == k
            &&& forall|j: int|
                0 <= j < k ==> fresh_compile(#[trigger] rules[j]) == Ok::<CompiledRuleModel, ErrorModel>(
                    compile_all(cache, rules.take(k)).1->Ok_0[j],
                )
            &&& forall|key: i32|
                #[trigger] compile_all(cache, rules.take(k)).0.dom().contains(key) ==> (cache.dom().contains(key)
                    && compile_all(cache, rules.take(k)).0[key] == cache[key]) || (key >= 0 && exists|j: int|
                    0 <= j < k && rule_key(#[trigger] rules[j]) == key)
        },
    decreases k,
{
    if k == 0 {
        assert(rules.take(0) =~= Seq::<RequestRuleModel>::empty());
    } else {
        lemma_compile_all_take_step(cache, rules, k);
        lemma_consistent_pass(cache, rules, k - 1);
        let prev = compile_all(cache, rules.take(k - 1));
        let now = compile_all(cache, rules.take(k));
        let r = rules[k - 1];
        let key = rule_key(r);
        if prev.1 is Err {
            let j = choose|j: int| 0 <= j < k - 1 && !(#[trigger] fresh_compile(rules[j]) is Ok);
            assert(!(forall|i: int| 0 <= i < k ==> (#[trigger] fresh_compile(rules[i])) is Ok));
        } else {
            if cache_hit(prev.0, r) {
                assert(fresh_compile(r) == Ok::<CompiledRuleModel, ErrorModel>(prev.0[key])) by {
                    if cache.dom().contains(key) && prev.0[key] == cache[key] {
                        assert(cache_hit(cache, rules[k - 1]));
                    } else {
                        let j = choose|j: int| 0 <= j < k - 1 && rule_key(#[trigger] rules[j]) == key;
                        assert(rules[j].id != r.id);
                    }
                }
            }
            assert(now.1 is Ok <==> fresh_compile(r) is Ok);
            if now.1 is Ok {
                assert(now.1->Ok_0.take(k - 1) =~= prev.1->Ok_0);
                assert forall|j: int| 0 <= j < k implies fresh_compile(#[trigger] rules[j]) == Ok::<
                    CompiledRuleModel,
                    ErrorModel,
                >(now.1->Ok_0[j]) by {
                    if j < k - 1 {
                        assert(now.1->Ok_0[j] == prev.1->Ok_0[j]);
                    }
                }
                assert forall|x: i32| #[trigger] now.0.dom().contains(x) implies (cache.dom().contains(x)
                    && now.0[x] == cache[x]) || (x >= 0 && exists|j: int|
                    0 <= j < k && rule_key(#[trigger] rules[j]) == x) by {
                    if x == key && key >= 0 && !cache_hit(prev.0, r) {
                        assert(rule_key(rules[k - 1]) == x);
                    } else {
                        assert(prev.0.dom().contains(x) && now.0[x] == prev.0[x]);
                        if !(cache.dom().contains(x) && prev.0[x] == cache[x]) {
                            let j = choose|j: int| 0 <= j < k - 1 && rule_key(#[trigger] rules[j]) == x;
                            assert(rule_key(rules[j]) == x);
                        }
                    }
                }
            } else {
                assert(!(fresh_compile(rules[k - 1]) is Ok));
            }
        }
    }
}

/// Selection from fresh compilations succeeds when each enabled rule's condition can be
/// evaluated for the request.
proof fn lemma_select_fresh_ok(list: Seq<CompiledRuleModel>, rules: Seq<RequestRuleModel>, req: RequestInfo, k: int)
    requires
        list.len() == rules.len(),
        0 <= k <= rules.len(),
        forall|j: int| 0 <= j < rules.len() ==> fresh_compile(#[trigger] rules[j]) == Ok::<CompiledRuleModel, ErrorModel>(list[j]),
        forall|j: int|
            0 <= j < rules.len() && (#[trigger] rules[j]).enabled ==> condition_outcome(rules[j].capture.condition, req) is Ok,
    ensures
        select(list.take(k), req) is Ok,
    decreases k,
{
    if k == 0 {
        assert(list.take(0) =~= Seq::<CompiledRuleModel>::empty());
    } else {
        assert(list.take(k).drop_last() =~= list.take(k - 1));
        assert(list.take(k).last() == list[k - 1]);
        lemma_select_fresh_ok(list, rules, req, k - 1);
        assert(fresh_compile(rules[k - 1]) == Ok::<CompiledRuleModel, ErrorModel>(list[k - 1]));
    }
}

/// Selecting from freshly compiled rules keeps the enabled rules whose condition holds.
proof fn lemma_select_fresh(list: Seq<CompiledRuleModel>, rules: Seq<RequestRuleModel>, req: RequestInfo, k: int)
    requires
        list.len() == rules.len(),
        0 <= k <= rules.len(),
        forall|j: int| 0 <= j < rules.len() ==> fresh_compile(#[trigger] rules[j]) == Ok::<CompiledRuleModel, ErrorModel>(list[j]),
        select(list.take(k), req) is Ok,
    ensures
        select(list.take(k), req) == Ok::<Seq<RequestRuleModel>, ErrorModel>(enabled_matches(rules.take(k), req)),
    decreases k,
{
    if k == 0 {
        assert(list.take(0) =~= Seq::<CompiledRuleModel>::empty());
        assert(rules.take(0) =~= Seq::<RequestRuleModel>::empty());
        assert(enabled_matches(rules.take(0), req) =~= Seq::<RequestRuleModel>::empty());
    } else {
        assert(list.take(k).drop_last() =~= list.take(k - 1));
        assert(list.take(k).last() == list[k - 1]);
        assert(rules.take(k).drop_last() =~= rules.take(k - 1));
        assert(rules.take(k).last() == rules[k - 1]);
        assert(select(list.take(k - 1), req) is Ok);
        lemma_select_fresh(list, rules, req, k - 1);
        let r = rules[k - 1];
        assert(fresh_compile(r) == Ok::<CompiledRuleModel, ErrorModel>(list[k - 1]));
        reveal_with_fuel(Seq::filter, 1);
    }
}

/// For rules with distinct ids and a cache that serves no rule a stale compilation (an empty
/// cache among them), matching gives the enabled rules whose condition holds for the request,
/// highest priority first (rules of equal priority in their given order); and it succeeds
/// whenever every rule's patterns compile and every enabled rule's condition can be evaluated
/// (each NOT it reaches has one sub-condition).
pub proof fn law_consistent_cache_filters_enabled_matches(
    cache: Map<i32, CompiledRuleModel>,
    rules: Seq<RequestRuleModel>,
    req: RequestInfo,
)
    requires
        distinct_rule_ids(rules),
        cache_consistent(cache, rules),
    ensures
        matching_outcome(cache, rules, req) matches Ok(out) ==> out == sort_desc(enabled_matches(rules, req)),
        (forall|j: int| 0 <= j < rules.len() ==> condition_compile_error((#[trigger] rules[j]).capture.condition) is None)
            && (forall|j: int|
            0 <= j < rules.len() && (#[trigger] rules[j]).enabled ==> condition_outcome(rules[j].capture.condition, req) is Ok)
            ==> matching_outcome(cache, rules, req) == Ok::<Seq<RequestRuleModel>, ErrorModel>(
            sort_desc(enabled_matches(rules, req)),
        ),
{
    let n = rules.len() as int;
    assert(rules.take(n) =~= rules);
    lemma_consistent_pass(cache, rules, n);
    if (forall|j: int| 0 <= j < rules.len() ==> condition_compile_error((#[trigger] rules[j]).capture.condition) is None) {
        assert forall|j: int| 0 <= j < n implies (#[trigger] fresh_compile(rules[j])) is Ok by {
            assert(condition_compile_error(rules[j].capture.condition) is None);
        }
    }
    if let Ok(crs) = compile_all(cache, rules).1 {
        assert(crs.take(n) =~= crs);
        if (forall|j: int|
            0 <= j < rules.len() && (#[trigger] rules[j]).enabled ==> condition_outcome(rules[j].capture.condition, req) is Ok) {
            lemma_select_fresh_ok(crs, rules, req, n);
        }
        if select(crs, req) is Ok {
            lemma_select_fresh(crs, rules, req, n);
        }
    }
}

/// A matcher with an empty cache gives, for rules with distinct ids, the enabled rules whose
/// condition holds for the request, highest priority first (rules of equal priority in their
/// given order), and succeeds whenever every pattern compiles and every enabled rule's
/// condition can be evaluated.
pub proof fn law_fresh_matcher_filters_enabled_matches(rules: Seq<RequestRuleModel>, req: RequestInfo)
    requires
        distinct_rule_ids(rules),
    ensures
        matching_outcome(Map::empty(), rules, req) matches Ok(out) ==> out == sort_desc(enabled_matches(rules, req)),
        (forall|j: int| 0 <= j < rules.len() ==> condition_compile_error((#[trigger] rules[j]).capture.condition) is None)
            && (forall|j: int|
            0 <= j < rules.len() && (#[trigger] rules[j]).enabled ==> condition_outcome(rules[j].capture.condition, req) is Ok)
            ==> matching_outcome(Map::empty(), rules, req) == Ok::<Seq<RequestRuleModel>, ErrorModel>(
            sort_desc(enabled_matches(rules, req)),
        ),
{
    law_consistent_cache_filters_enabled_matches(Map::empty(), rules, req);
}

/// A simple condition of exact type matches a request exactly when the request's URL is the
/// pattern itself and the method and host filters accept it; one of contains type when the URL
/// holds the pattern somewhere. Neither can fail.
pub proof fn law_exact_and_contains_patterns(s: SimpleConditionModel, req: RequestInfo)
    ensures
        s.capture_type is Exact ==> condition_outcome(ConditionModel::Simple(s), req) == Ok::<bool, ErrorModel>(
            filter_accepts(s.method, req.method@) && filter_accepts(s.host, req.host@) && req.url@ == s.pattern@,
        ),
        s.capture_type is Contains ==> condition_outcome(ConditionModel::Simple(s), req) == Ok::<bool, ErrorModel>(
            filter_accepts(s.method, req.method@) && filter_accepts(s.host, req.host@) && exists|i: int|
                0 <= i && i + s.pattern@.len() <= req.url@.len() && #[trigger] req.url@.subrange(i, i + s.pattern@.len())
                    == s.pattern@,
        ),
{
    if s.capture_type is Contains {
        let (url, pat) = (req.url@, s.pattern@);
        if seq_contains(url, pat) {
            let i = choose|i: int| crate::text::occurs_at(url, pat, i);
            assert(url.subrange(i, i + pat.len()) == pat);
        }
        if exists|i: int| 0 <= i && i + pat.len() <= url.len() && #[trigger] url.subrange(i, i + pat.len()) == pat {
            let i = choose|i: int| 0 <= i && i + pat.len() <= url.len() && #[trigger] url.subrange(i, i + pat.len()) == pat;
            assert(crate::text::occurs_at(url, pat, i));
        }
    }
}

} // verus!
