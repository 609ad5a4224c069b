//! What happens to an intercepted request once rules match: the handlers that run and their
//! order, what a block or delay handler does, and what each handler outcome leads to.
use vstd::prelude::*;
use vstd::utf8::encode_utf8;
use vstd::string::StringExecFns;
use rand::Rng;
use crate::handlers::{
    BlockHandlerConfig, DelayHandlerConfig, DelayType, HandlerRule, HandlerRuleModel, HandlerRuleType,
    HandlerRuleTypeModel,
};
use crate::headers::Headers;
use crate::matcher::rules_model;
use crate::request_info::RequestInfo;
use crate::response_info::{ResponseInfo, opt_text};
use crate::text::{push_str, string_of};
use crate::types::{RequestRule, RequestRuleModel};

verus! {

/// What a request handler gives back: the request to continue with, or a response to answer
/// with at once.
#[derive(Debug)]
pub enum HandleRequestType {
    Request(RequestInfo),
    Response(ResponseInfo),
}

// ---------------------------------------------------------------------------------------
// Block handler
// ---------------------------------------------------------------------------------------

/// The reason text a block handler answers with.
pub open spec fn block_reason(c: BlockHandlerConfig) -> Seq<char> {
    match c.reason {
        Some(r) => r@,
        None => "Access blocked by proxy"@,
    }
}

/// The response of a block handler: its status (403 by default), a plain-text body with its
/// reason, and the headers that mark the block.
pub open spec fn is_block_response(c: BlockHandlerConfig, r: ResponseInfo) -> bool {
    &&& r.status_code == match c.status_code {
        Some(s) => s,
        None => 403u16,
    }
    &&& r.headers@ == Map::<Seq<char>, Seq<char>>::empty().insert("content-type"@, "text/plain"@).insert(
        "x-blocked-by"@,
        "lynx-proxy"@,
    )
    &&& r.body@ == encode_utf8(block_reason(c))
    &&& r.content_length == Some(encode_utf8(block_reason(c)).len() as u64)
    &&& opt_text(r.content_type) == Some("text/plain"@)
}

impl BlockHandlerConfig {
    /// Blocks the request: answers with the configured status and reason.
    pub fn handle_request(&self, request: RequestInfo) -> (r: HandleRequestType)
        ensures
            r matches HandleRequestType::Response(resp) && is_block_response(*self, resp),
    {
        let status_code = match self.status_code {
            Some(s) => s,
            None => 403,
        };
        let reason = match &self.reason {
            Some(r) => r.as_str(),
            None => "Access blocked by proxy",
        };
        let mut headers = Headers::new();
        headers.insert(string_of("content-type"), string_of("text/plain"));
        headers.insert(string_of("x-blocked-by"), string_of("lynx-proxy"));
        let body = reason.as_bytes_vec();
        let content_length = Some(body.len() as u64);
        HandleRequestType::Response(
            ResponseInfo {
                status_code,
                headers,
                body,
                content_length,
                content_type: Some(string_of("text/plain")),
            },
        )
    }

    /// Passes a response through unchanged.
    pub fn handle_response(&self, response: ResponseInfo) -> (r: Option<ResponseInfo>)
        ensures
            r == Some(response),
    {
        Some(response)
    }
}

// ---------------------------------------------------------------------------------------
// Delay handler
// ---------------------------------------------------------------------------------------

/// The shortest delay: the base delay less the variance, at least zero.
pub open spec fn delay_floor(c: DelayHandlerConfig) -> u64 {
    match c.variance_ms {
        Some(v) => if v > c.delay_ms {
            0u64
        } else {
            (c.delay_ms - v) as u64
        },
        None => c.delay_ms,
    }
}

/// The longest delay: the base delay plus the variance, at most `u64::MAX`.
pub open spec fn delay_ceiling(c: DelayHandlerConfig) -> u64 {
    match c.variance_ms {
        Some(v) => if c.delay_ms + v > u64::MAX {
            u64::MAX
        } else {
            (c.delay_ms + v) as u64
        },
        None => c.delay_ms,
    }
}

/// A number drawn uniformly from `min..=max` by the thread's random generator
/// (`rand::Rng::gen_range`); nothing is claimed of which number comes.
#[verifier::external_body]
fn random_in_range(min: u64, max: u64) -> (r: u64)
    requires
        min <= max,
    ensures
        min <= r <= max,
{
    rand::thread_rng().gen_range(min..=max)
}

/// The delay before the request is processed, for a drawn delay of `actual` milliseconds.
pub open spec fn request_phase_delay(t: DelayType, actual: u64) -> Option<u64> {
    match t {
        DelayType::BeforeRequest => Some(actual),
        DelayType::AfterRequest => None,
        DelayType::Both => Some(actual / 2),
    }
}

/// The delay after the response comes back, for a drawn delay of `actual` milliseconds.
pub open spec fn response_phase_delay(t: DelayType, actual: u64) -> Option<u64> {
    match t {
        DelayType::BeforeRequest => None,
        DelayType::AfterRequest => Some(actual),
        DelayType::Both => Some(actual / 2),
    }
}

impl DelayHandlerConfig {
    /// The delay to apply: the base delay, or with a variance a random delay between the base
    /// less the variance and the base plus the variance (both saturating).
    pub fn actual_delay_ms(&self) -> (r: u64)
        ensures
            self.variance_ms is None ==> r == self.delay_ms,
            delay_floor(*self) <= r <= delay_ceiling(*self),
    {
        match self.variance_ms {
            Some(variance) => {
                let min_delay = if variance > self.delay_ms {
                    0
                } else {
                    self.delay_ms - variance
                };
                let max_delay = if self.delay_ms > u64::MAX - variance {
                    u64::MAX
                } else {
                    self.delay_ms + variance
                };
                random_in_range(min_delay, max_delay)
            },
            None => self.delay_ms,
        }
    }

    /// How long to wait before the request goes on, for a drawn delay: all of it before the
    /// request, none when the delay comes after, half of it when it comes on both sides.
    pub fn request_delay_for(&self, actual: u64) -> (r: Option<u64>)
        ensures
            r == request_phase_delay(self.delay_type, actual),
    {
        match self.delay_type {
            DelayType::BeforeRequest => Some(actual),
            DelayType::AfterRequest => None,
            DelayType::Both => Some(actual / 2),
        }
    }

    /// How long to wait after the response comes back, for a drawn delay.
    pub fn response_delay_for(&self, actual: u64) -> (r: Option<u64>)
        ensures
            r == response_phase_delay(self.delay_type, actual),
    {
        match self.delay_type {
            DelayType::BeforeRequest => None,
            DelayType::AfterRequest => Some(actual),
            DelayType::Both => Some(actual / 2),
        }
    }

    /// Draws a delay and gives the wait before the request.
    pub fn request_delay_ms(&self) -> (r: Option<u64>)
        ensures
            exists|actual: u64|
                delay_floor(*self) <= actual <= delay_ceiling(*self) && r == request_phase_delay(
                    self.delay_type,
                    actual,
                ),
    {
        let actual = self.actual_delay_ms();
        self.request_delay_for(actual)
    }

    /// Draws a delay and gives the wait after the response.
    pub fn response_delay_ms(&self) -> (r: Option<u64>)
        ensures
            exists|actual: u64|
                delay_floor(*self) <= actual <= delay_ceiling(*self) && r == response_phase_delay(
                    self.delay_type,
                    actual,
                ),
    {
        let actual = self.actual_delay_ms();
        self.response_delay_for(actual)
    }
}

// ---------------------------------------------------------------------------------------
// The handlers that run, in order
// ---------------------------------------------------------------------------------------

/// The enabled handlers of a rule.
pub open spec fn enabled_of(hs: Seq<HandlerRuleModel>) -> Seq<HandlerRuleModel> {
    hs.filter(|h: HandlerRuleModel| h.enabled)
}

/// The enabled handlers of the enabled rules, rule by rule and in each rule's order.
pub open spec fn enabled_handlers(rules: Seq<RequestRuleModel>) -> Seq<HandlerRuleModel>
    decreases rules.len(),
{
    if rules.len() == 0 {
        Seq::empty()
    } else {
        enabled_handlers(rules.drop_last()) + if rules.last().enabled {
            enabled_of(rules.last().handlers)
        } else {
            Seq::empty()
        }
    }
}

/// Inserts `x` after every handler whose execution order is at most its own.
pub open spec fn insert_by_order(s: Seq<HandlerRuleModel>, x: HandlerRuleModel) -> Seq<HandlerRuleModel>
    decreases s.len(),
{
    if s.len() == 0 {
        seq![x]
    } else if s.last().execution_order <= x.execution_order {
        s.push(x)
    } else {
        insert_by_order(s.drop_last(), x).push(s.last())
    }
}

/// The handlers ordered by execution order, lowest first; handlers of equal order keep their
/// order (a stable sort).
pub open spec fn sort_by_order(s: Seq<HandlerRuleModel>) -> Seq<HandlerRuleModel>
    decreases s.len(),
{
    if s.len() == 0 {
        s
    } else {
        insert_by_order(sort_by_order(s.drop_last()), s.last())
    }
}

/// The handlers are ordered by execution order, lowest first.
pub open spec fn sorted_by_order(s: Seq<HandlerRuleModel>) -> bool {
    forall|i: int, j: int| 0 <= i < j < s.len() ==> (#[trigger] s[i]).execution_order <= (#[trigger] s[j]).execution_order
}

/// The handlers to run for the matched rules.
pub open spec fn handler_plan(rules: Seq<RequestRuleModel>) -> Seq<HandlerRuleModel> {
    sort_by_order(enabled_handlers(rules))
}

/// The models of a sequence of handlers.
pub open spec fn plan_model(s: Seq<HandlerRule>) -> Seq<HandlerRuleModel> {
    s.map_values(|h: HandlerRule| h@)
}

proof fn lemma_insert_by_order_at(s: Seq<HandlerRuleModel>, x: HandlerRuleModel, j: int)
    requires
        0 <= j <= s.len(),
        forall|k: int| j <= k < s.len() ==> (#[trigger] s[k]).execution_order > x.execution_order,
        j == 0 || s[j - 1].execution_order <= x.execution_order,
    ensures
        insert_by_order(s, x) == s.insert(j, x),
    decreases s.len(),
{
    if s.len() == 0 {
        assert(s.insert(j, x) =~= seq![x]);
    } else if j == s.len() {
        assert(s.insert(j, x) =~= s.push(x));
    } else {
        let p = s.drop_last();
        lemma_insert_by_order_at(p, x, j);
        assert(s.insert(j, x) =~= p.insert(j, x).push(s.last()));
    }
}

proof fn lemma_insert_by_order_sorted(s: Seq<HandlerRuleModel>, x: HandlerRuleModel)
    requires
        sorted_by_order(s),
    ensures
        sorted_by_order(insert_by_order(s, x)),
        insert_by_order(s, x).to_multiset() == s.to_multiset().insert(x),
    decreases s.len(),
{
    broadcast use vstd::seq_lib::group_to_multiset_ensures;
    if s.len() == 0 {
        assert(seq![x] =~= Seq::<HandlerRuleModel>::empty().push(x));
    } else if s.last().execution_order <= x.execution_order {
    } else {
        let p = s.drop_last();
        assert(p.push(s.last()) =~= s);
        lemma_insert_by_order_sorted(p, x);
        let q = insert_by_order(p, x);
        assert forall|i: int, j: int| 0 <= i < j < q.len() + 1 implies (#[trigger] q.push(s.last())[i]).execution_order
            <= (#[trigger] q.push(s.last())[j]).execution_order by {
            if j == q.len() {
                assert(q.to_multiset().count(q[i]) > 0);
                if q[i] != x {
                    assert(p.to_multiset().count(q[i]) > 0);
                    assert(p.contains(q[i]));
                    let k = choose|k: int| 0 <= k < p.len() && p[k] == q[i];
                    assert(s[k] == q[i]);
                }
            }
        }
    }
}

/// Ordering by execution order gives a list ordered by execution order that holds the same
/// handlers.
proof fn lemma_sort_by_order(s: Seq<HandlerRuleModel>)
    ensures
        sorted_by_order(sort_by_order(s)),
        sort_by_order(s).to_multiset() == s.to_multiset(),
    decreases s.len(),
{
    broadcast use vstd::seq_lib::group_to_multiset_ensures;
    if s.len() > 0 {
        lemma_sort_by_order(s.drop_last());
        lemma_insert_by_order_sorted(sort_by_order(s.drop_last()), s.last());
        assert(s.drop_last().push(s.last()) =~= s);
    }
}

/// The handlers run in execution order, lowest first, and they are exactly the enabled
/// handlers of the enabled rules.
pub proof fn law_plan_runs_enabled_handlers_in_order(rules: Seq<RequestRuleModel>)
    ensures
        sorted_by_order(handler_plan(rules)),
        handler_plan(rules).to_multiset() == enabled_handlers(rules).to_multiset(),
{
    lemma_sort_by_order(enabled_handlers(rules));
}

/// Inserts a handler after every handler whose execution order is at most its own.
fn insert_handler_by_order(sorted: &mut Vec<HandlerRule>, x: HandlerRule)
    ensures
        plan_model(final(sorted)@) == insert_by_order(plan_model(old(sorted)@), x@),
{
    let mut j = sorted.len();
    while j > 0 && sorted[j - 1].execution_order > x.execution_order
        invariant
            j <= sorted@.len(),
            forall|k: int| j <= k < sorted@.len() ==> (#[trigger] sorted@[k]).execution_order > x.execution_order,
        decreases j,
    {
        j = j - 1;
    }
    proof {
        let m = plan_model(sorted@);
        lemma_insert_by_order_at(m, x@, j as int);
        assert(plan_model(sorted@.insert(j as int, x)) =~= m.insert(j as int, x@));
    }
    sorted.insert(j, x);
}

/// The handlers to run for the matched rules: the enabled handlers of the enabled rules,
/// ordered by execution order (handlers of equal order in rule order).
pub fn plan_handlers(rules: &[RequestRule]) -> (r: Vec<HandlerRule>)
    ensures
        plan_model(r@) == handler_plan(rules_model(rules@)),
{
    let ghost rms = rules_model(rules@);
    let mut out: Vec<HandlerRule> = Vec::new();
    let mut i: usize = 0;
    proof {
        assert(rms.take(0) =~= Seq::<RequestRuleModel>::empty());
        assert(plan_model(out@) =~= Seq::<HandlerRuleModel>::empty());
    }
    while i < rules.len()
        invariant
            rms == rules_model(rules@),
            i <= rules@.len(),
            plan_model(out@) == sort_by_order(enabled_handlers(rms.take(i as int))),
        decreases rules.len() - i,
    {
        let rule = &rules[i];
        let ghost before = enabled_handlers(rms.take(i as int));
        proof {
            assert(rms.take(i + 1).drop_last() =~= rms.take(i as int));
            assert(rms.take(i + 1).last() == rule@);
        }
        if rule.enabled {
            let ghost hs = rule@.handlers;
            let mut k: usize = 0;
            proof {
                assert(hs.take(0).filter(|h: HandlerRuleModel| h.enabled) =~= Seq::<HandlerRuleModel>::empty());
                assert(before + Seq::<HandlerRuleModel>::empty() =~= before);
            }
            while k < rule.handlers.len()
                invariant
                    rule == &rules@[i as int],
                    rule.enabled,
                    hs == rule@.handlers,
                    hs == crate::types::handlers_model(rule.handlers@),
                    k <= rule.handlers@.len(),
                    plan_model(out@) == sort_by_order(before + enabled_of(hs.take(k as int))),
                decreases rule.handlers.len() - k,
            {
                let h = &rule.handlers[k];
                proof {
                    assert(hs.take(k + 1).drop_last() =~= hs.take(k as int));
                    assert(hs.take(k + 1).last() == h@);
                    reveal_with_fuel(Seq::filter, 1);
                    assert(enabled_of(hs.take(k + 1)) == if h.enabled {
                        enabled_of(hs.take(k as int)).push(h@)
                    } else {
                        enabled_of(hs.take(k as int))
                    });
                }
                if h.enabled {
                    let x = h.clone();
                    proof {
                        let a = before + enabled_of(hs.take(k as int));
                        assert(a.push(x@).drop_last() =~= a);
                        assert(before + enabled_of(hs.take(k as int)).push(x@) =~= a.push(x@));
                    }
                    insert_handler_by_order(&mut out, x);
                }
                k = k + 1;
            }
            proof {
                assert(hs.take(k as int) =~= hs);
            }
        } else {
            proof {
                assert(before + Seq::<HandlerRuleModel>::empty() =~= before);
            }
        }
        i = i + 1;
    }
    proof {
        assert(rms.take(i as int) =~= rms);
    }
    out
}

// ---------------------------------------------------------------------------------------
// Running the handlers
// ---------------------------------------------------------------------------------------

/// What a request handler's run came to.
#[derive(Debug)]
pub enum HandlerOutcome {
    /// It gave back a request: go on with it.
    Continue,
    /// It gave back a response: answer with it.
    Respond,
    /// It failed, with this message.
    Failed(String),
}

/// What to do next while a request is processed.
#[derive(Debug)]
pub enum ProcessingAction {
    /// Run the request side of the handler at this position of the plan.
    HandleRequest(usize),
    /// Send the (possibly modified) request on to the upstream service.
    Forward,
    /// Answer with the response the last handler gave.
    ReplyWithHandlerResponse,
    /// Answer with this response.
    Reply(ResponseInfo),
    /// Run the response side of the handler at this position of the plan.
    HandleResponse(usize),
    /// Answer with the upstream response as the response handlers left it.
    ReplyWithUpstream,
}

/// The kinds of handler that also act on the response.
pub open spec fn acts_on_response(t: HandlerRuleTypeModel) -> bool {
    t is ModifyResponse || t is HtmlScriptInjector || t is Delay
}

/// The text of the error response for a failed handler.
pub open spec fn failure_text(message: Seq<char>) -> Seq<char> {
    "Handler processing failed: "@ + message
}

/// The response for a failed handler: status 500 and the failure as plain text.
pub open spec fn is_failure_response(message: Seq<char>, r: ResponseInfo) -> bool {
    &&& r.status_code == 500
    &&& r.headers@ == Map::<Seq<char>, Seq<char>>::empty().insert("content-type"@, "text/plain"@)
    &&& r.body@ == encode_utf8(failure_text(message))
    &&& r.content_length == Some(encode_utf8(failure_text(message)).len() as u64)
    &&& opt_text(r.content_type) == Some("text/plain"@)
}

/// The first position at or after `from` of a handler that acts on the response.
pub open spec fn next_response_position(plan: Seq<HandlerRuleModel>, from: int) -> Option<int>
    decreases plan.len() - from,
{
    if from < 0 || from >= plan.len() {
        None
    } else if acts_on_response(plan[from].handler_type) {
        Some(from)
    } else {
        next_response_position(plan, from + 1)
    }
}

/// Whether a handler of this kind acts on the response.
pub fn handles_response(t: &HandlerRuleType) -> (r: bool)
    ensures
        r == acts_on_response(t@),
{
    match t {
        HandlerRuleType::ModifyResponse(_) | HandlerRuleType::HtmlScriptInjector(_) | HandlerRuleType::Delay(_) => true,
        _ => false,
    }
}

/// The response for a handler that failed with `message`.
pub fn handler_failure_response(message: &str) -> (r: ResponseInfo)
    ensures
        is_failure_response(message@, r),
{
    let mut text = string_of("Handler processing failed: ");
    push_str(&mut text, message);
    let mut headers = Headers::new();
    headers.insert(string_of("content-type"), string_of("text/plain"));
    let body = text.as_str().as_bytes_vec();
    let content_length = Some(body.len() as u64);
    ResponseInfo { status_code: 500, headers, body, content_length, content_type: Some(string_of("text/plain")) }
}

/// A step of request processing as the laws see it: `ProcessingAction` with positions as
/// integers and without the response an error reply carries.
pub enum ProcessingStep {
    HandleRequest(int),
    Forward,
    ReplyWithHandlerResponse,
    Reply,
    HandleResponse(int),
    ReplyWithUpstream,
}

impl View for ProcessingAction {
    type V = ProcessingStep;

    open spec fn view(&self) -> ProcessingStep {
        match self {
            ProcessingAction::HandleRequest(i) => ProcessingStep::HandleRequest(*i as int),
            ProcessingAction::Forward => ProcessingStep::Forward,
            ProcessingAction::ReplyWithHandlerResponse => ProcessingStep::ReplyWithHandlerResponse,
            ProcessingAction::Reply(_) => ProcessingStep::Reply,
            ProcessingAction::HandleResponse(i) => ProcessingStep::HandleResponse(*i as int),
            ProcessingAction::ReplyWithUpstream => ProcessingStep::ReplyWithUpstream,
        }
    }
}

/// The first step for a plan of `n` handlers: the request side of the first handler, or
/// forwarding the request when there is none.
pub open spec fn first_step(n: int) -> ProcessingStep {
    if n > 0 {
        ProcessingStep::HandleRequest(0)
    } else {
        ProcessingStep::Forward
    }
}

/// The step after the request side of the handler at `index`, of `n`, came to `outcome`.
pub open spec fn request_step(n: int, index: int, outcome: HandlerOutcome) -> ProcessingStep {
    match outcome {
        HandlerOutcome::Continue => if index + 1 < n {
            ProcessingStep::HandleRequest(index + 1)
        } else {
            ProcessingStep::Forward
        },
        HandlerOutcome::Respond => ProcessingStep::ReplyWithHandlerResponse,
        HandlerOutcome::Failed(_) => ProcessingStep::Reply,
    }
}

/// The step once the upstream response is in, or after the response side of the handler
/// before `from` ran.
pub open spec fn response_step(plan: Seq<HandlerRuleModel>, from: int) -> ProcessingStep {
    match next_response_position(plan, from) {
        Some(j) => ProcessingStep::HandleResponse(j),
        None => ProcessingStep::ReplyWithUpstream,
    }
}

/// The request phase from the handler at position `i` on, for a plan of `n` handlers where
/// the request side of the handler at position `k` comes to `outcomes[k]`: the positions
/// whose request side runs, in order, and the step that ends the phase.
pub open spec fn request_run_from(n: int, outcomes: Seq<HandlerOutcome>, i: int) -> (Seq<int>, ProcessingStep)
    decreases n - i,
{
    match request_step(n, i, outcomes[i]) {
        ProcessingStep::HandleRequest(j) => if i < j <= n {
            let rest = request_run_from(n, outcomes, j);
            (seq![i] + rest.0, rest.1)
        } else {
            (seq![i], ProcessingStep::HandleRequest(j))
        },
        s => (seq![i], s),
    }
}

/// The whole request phase for a plan of `n` handlers, from the first step on.
pub open spec fn request_run(n: int, outcomes: Seq<HandlerOutcome>) -> (Seq<int>, ProcessingStep) {
    match first_step(n) {
        ProcessingStep::HandleRequest(i) => request_run_from(n, outcomes, i),
        s => (Seq::empty(), s),
    }
}

/// The response phase from position `from` on: the positions whose response side runs, in
/// order, and the step that ends the phase.
pub open spec fn response_run_from(plan: Seq<HandlerRuleModel>, from: int) -> (Seq<int>, ProcessingStep)
    decreases plan.len() - from,
{
    match response_step(plan, from) {
        ProcessingStep::HandleResponse(k) => if from <= k < plan.len() {
            let rest = response_run_from(plan, k + 1);
            (seq![k] + rest.0, rest.1)
        } else {
            (seq![k], ProcessingStep::HandleResponse(k))
        },
        s => (Seq::empty(), s),
    }
}

/// The positions at or after `from` of the handlers that act on the response, in order.
pub open spec fn response_positions(plan: Seq<HandlerRuleModel>, from: int) -> Seq<int>
    decreases plan.len() - from,
{
    if from < 0 || from >= plan.len() {
        Seq::empty()
    } else if acts_on_response(plan[from].handler_type) {
        seq![from] + response_positions(plan, from + 1)
    } else {
        response_positions(plan, from + 1)
    }
}

proof fn lemma_all_continue_from(n: int, outcomes: Seq<HandlerOutcome>, i: int)
    requires
        0 <= i < n,
        forall|k: int| 0 <= k < n ==> (#[trigger] outcomes[k]) is Continue,
    ensures
        request_run_from(n, outcomes, i) == (Seq::new((n - i) as nat, |k: int| i + k), ProcessingStep::Forward),
    decreases n - i,
{
    assert(outcomes[i] is Continue);
    if i + 1 < n {
        lemma_all_continue_from(n, outcomes, i + 1);
        assert(seq![i] + Seq::new((n - i - 1) as nat, |k: int| i + 1 + k) =~= Seq::new((n - i) as nat, |k: int| i + k));
    } else {
        assert(seq![i] =~= Seq::new((n - i) as nat, |k: int| i + k));
    }
}

/// When every handler lets the request through, the request side of each handler runs once,
/// in plan order, and the phase ends by forwarding the request to the upstream service.
pub proof fn law_all_handlers_continue(n: int, outcomes: Seq<HandlerOutcome>)
    requires
        0 <= n,
        forall|k: int| 0 <= k < n ==> (#[trigger] outcomes[k]) is Continue,
    ensures
        request_run(n, outcomes) == (Seq::new(n as nat, |k: int| k), ProcessingStep::Forward),
{
    if n > 0 {
        lemma_all_continue_from(n, outcomes, 0);
        assert(Seq::new(n as nat, |k: int| 0 + k) =~= Seq::new(n as nat, |k: int| k));
    } else {
        assert(Seq::<int>::empty() =~= Seq::new(n as nat, |k: int| k));
    }
}

/// The step that ends the request phase when a handler does not let the request through.
pub open spec fn stop_step(outcome: HandlerOutcome) -> ProcessingStep {
    if outcome is Respond {
        ProcessingStep::ReplyWithHandlerResponse
    } else {
        ProcessingStep::Reply
    }
}

proof fn lemma_first_stop_from(n: int, outcomes: Seq<HandlerOutcome>, k: int, i: int)
    requires
        0 <= i <= k < n,
        forall|j: int| 0 <= j < k ==> (#[trigger] outcomes[j]) is Continue,
        !(outcomes[k] is Continue),
    ensures
        request_run_from(n, outcomes, i) == (Seq::new((k + 1 - i) as nat, |j: int| i + j), stop_step(outcomes[k])),
    decreases k - i,
{
    if i < k {
        assert(outcomes[i] is Continue);
        lemma_first_stop_from(n, outcomes, k, i + 1);
        assert(seq![i] + Seq::new((k - i) as nat, |j: int| i + 1 + j) =~= Seq::new((k + 1 - i) as nat, |j: int| i + j));
    } else {
        assert(seq![i] =~= Seq::new((k + 1 - i) as nat, |j: int| i + j));
    }
}

/// When the handler at position `k` is the first that does not let the request through, the
/// request sides of the handlers up to it run, once each and in plan order, and no later one
/// runs; the phase ends by answering with that handler's response, or with the error response
/// when it failed, and the request is never forwarded.
pub proof fn law_first_stop_ends_request_phase(n: int, outcomes: Seq<HandlerOutcome>, k: int)
    requires
        0 <= k < n,
        forall|j: int| 0 <= j < k ==> (#[trigger] outcomes[j]) is Continue,
        !(outcomes[k] is Continue),
    ensures
        request_run(n, outcomes) == (Seq::new((k + 1) as nat, |j: int| j), stop_step(outcomes[k])),
{
    lemma_first_stop_from(n, outcomes, k, 0);
    assert(Seq::new((k + 1) as nat, |j: int| 0 + j) =~= Seq::new((k + 1) as nat, |j: int| j));
}

proof fn lemma_next_response_position(plan: Seq<HandlerRuleModel>, from: int)
    requires
        0 <= from,
    ensures
        match next_response_position(plan, from) {
            Some(k) => from <= k < plan.len() && acts_on_response(plan[k].handler_type) && response_positions(
                plan,
                from,
            ) == seq![k] + response_positions(plan, k + 1),
            None => response_positions(plan, from) == Seq::<int>::empty(),
        },
    decreases plan.len() - from,
{
    if from < plan.len() && !acts_on_response(plan[from].handler_type) {
        lemma_next_response_position(plan, from + 1);
    }
}

proof fn lemma_response_run_from(plan: Seq<HandlerRuleModel>, from: int)
    requires
        0 <= from,
    ensures
        response_run_from(plan, from) == (response_positions(plan, from), ProcessingStep::ReplyWithUpstream),
    decreases plan.len() - from,
{
    lemma_next_response_position(plan, from);
    if let Some(k) = next_response_position(plan, from) {
        lemma_response_run_from(plan, k + 1);
    }
}

proof fn lemma_response_positions(plan: Seq<HandlerRuleModel>, from: int)
    requires
        0 <= from,
    ensures
        forall|a: int, b: int|
            0 <= a < b < response_positions(plan, from).len() ==> #[trigger] response_positions(plan, from)[a]
                < #[trigger] response_positions(plan, from)[b],
        forall|i: int|
            response_positions(plan, from).contains(i) <==> (from <= i < plan.len() && acts_on_response(
                plan[i].handler_type,
            )),
    decreases plan.len() - from,
{
    if from < plan.len() {
        lemma_response_positions(plan, from + 1);
        let rest = response_positions(plan, from + 1);
        if acts_on_response(plan[from].handler_type) {
            let all = seq![from] + rest;
            assert forall|i: int| all.contains(i) <==> (from <= i < plan.len() && acts_on_response(plan[i].handler_type)) by {
                if i == from {
                    assert(all[0] == i);
                } else if all.contains(i) {
                    let j = choose|j: int| 0 <= j < all.len() && all[j] == i;
                    assert(rest[j - 1] == i);
                    assert(rest.contains(i));
                } else if from < i < plan.len() && acts_on_response(plan[i].handler_type) {
                    assert(rest.contains(i));
                    let j = choose|j: int| 0 <= j < rest.len() && rest[j] == i;
                    assert(all[j + 1] == i);
                }
            }
            assert forall|a: int, b: int| 0 <= a < b < all.len() implies #[trigger] all[a] < #[trigger] all[b] by {
                if a == 0 {
                    assert(rest.contains(all[b]));
                } else {
                    assert(all[a] == rest[a - 1] && all[b] == rest[b - 1]);
                }
            }
        }
    }
}

/// After the upstream reply, the response side runs for exactly the handlers of the plan that
/// act on the response (response modification, script injection, delay), once each and in
/// plan order, and the phase ends by answering with the response they leave.
pub proof fn law_response_phase_runs_response_handlers(plan: Seq<HandlerRuleModel>)
    ensures
        response_run_from(plan, 0) == (response_positions(plan, 0), ProcessingStep::ReplyWithUpstream),
        forall|a: int, b: int|
            0 <= a < b < response_positions(plan, 0).len() ==> #[trigger] response_positions(plan, 0)[a]
                < #[trigger] response_positions(plan, 0)[b],
        forall|i: int|
            response_positions(plan, 0).contains(i) <==> (0 <= i < plan.len() && acts_on_response(
                plan[i].handler_type,
            )),
{
    lemma_response_run_from(plan, 0);
    lemma_response_positions(plan, 0);
}

/// The handlers to run for the outcome of the rule lookup: `None` when the lookup failed or
/// found no rule, and then the request goes on to the upstream service untouched and its
/// reply is the answer; else the plan for the rules found.
pub fn plan_for_lookup<E>(lookup: Result<Vec<RequestRule>, E>) -> (r: Option<Vec<HandlerRule>>)
    ensures
        match lookup {
            Ok(rules) => if rules@.len() == 0 {
                r is None
            } else {
                r matches Some(plan) && plan_model(plan@) == handler_plan(rules_model(rules@))
            },
            Err(_) => r is None,
        },
{
    match lookup {
        Ok(rules) => if rules.len() == 0 {
            None
        } else {
            Some(plan_handlers(rules.as_slice()))
        },
        Err(_) => None,
    }
}

/// The first step: run the first handler, or forward the request when there is none.
pub fn first_action(plan: &[HandlerRule]) -> (r: ProcessingAction)
    ensures
        r@ == first_step(plan@.len() as int),
{
    if plan.len() == 0 {
        ProcessingAction::Forward
    } else {
        ProcessingAction::HandleRequest(0)
    }
}

/// The step after the request side of the handler at `index` ran: go on with the next
/// handler or forward the request after the last; answer with a handler's response at once;
/// answer a failure with an error response.
pub fn after_request_handler(plan: &[HandlerRule], index: usize, outcome: HandlerOutcome) -> (r: ProcessingAction)
    requires
        index < plan@.len(),
    ensures
        r@ == request_step(plan@.len() as int, index as int, outcome),
        outcome matches HandlerOutcome::Failed(m) ==> (r matches ProcessingAction::Reply(resp)
            && is_failure_response(m@, resp)),
{
    match outcome {
        HandlerOutcome::Continue => if index < plan.len() - 1 {
            ProcessingAction::HandleRequest(index + 1)
        } else {
            ProcessingAction::Forward
        },
        HandlerOutcome::Respond => ProcessingAction::ReplyWithHandlerResponse,
        HandlerOutcome::Failed(message) => ProcessingAction::Reply(handler_failure_response(message.as_str())),
    }
}

/// The step once the upstream response is in, or after the response side of a handler ran:
/// the next handler at or after `from` that acts on the response, else answer with the
/// response.
pub fn next_response_action(plan: &[HandlerRule], from: usize) -> (r: ProcessingAction)
    ensures
        r@ == response_step(plan_model(plan@), from as int),
{
    let ghost m = plan_model(plan@);
    let mut j = from;
    while j < plan.len()
        invariant
            m == plan_model(plan@),
            from <= j,
            next_response_position(m, from as int) == next_response_position(m, j as int),
        decreases plan.len() - j,
    {
        if handles_response(&plan[j].handler_type) {
            return ProcessingAction::HandleResponse(j);
        }
        j = j + 1;
    }
    ProcessingAction::ReplyWithUpstream
}

/// The request processing layer around an inner service.
#[derive(Debug, Clone)]
pub struct RequestProcessingService<S> {
    pub service: S,
}

impl<S> RequestProcessingService<S> {
    /// The layer around `service`.
    pub fn new(service: S) -> (r: Self)
        ensures
            r.service == service,
    {
        RequestProcessingService { service }
    }
}

/// The milliseconds a phase waits: its delay, or nothing.
pub open spec fn phase_ms(d: Option<u64>) -> int {
    match d {
        Some(v) => v as int,
        None => 0,
    }
}

/// The delay drawn for a request is spent around it: the waits before the request and after
/// the response add up to the drawn delay (less at most one millisecond when it is halved
/// between the two); a before-request delay waits all of it before the request and nothing
/// after, an after-request delay nothing before and all of it after, and a delay on both sides
/// waits the same on each.
pub proof fn law_delay_phases_cover_the_drawn_delay(t: DelayType, actual: u64)
    ensures
        phase_ms(request_phase_delay(t, actual)) + phase_ms(response_phase_delay(t, actual)) <= actual,
        actual <= phase_ms(request_phase_delay(t, actual)) + phase_ms(response_phase_delay(t, actual)) + 1,
        !(t is Both) ==> phase_ms(request_phase_delay(t, actual)) + phase_ms(response_phase_delay(t, actual))
            == actual,
        t is BeforeRequest ==> response_phase_delay(t, actual) is None && phase_ms(request_phase_delay(t, actual))
            == actual,
        t is AfterRequest ==> request_phase_delay(t, actual) is None && phase_ms(response_phase_delay(t, actual))
            == actual,
        t is Both ==> request_phase_delay(t, actual) == response_phase_delay(t, actual)
            && request_phase_delay(t, actual) is Some,
{
}

/// After the upstream reply, the response side runs at exactly the positions of the plan whose
/// handler modifies the response, injects a script into HTML, or delays; no other kind of
/// handler touches the response.
pub proof fn law_response_side_runs_for_response_kinds(plan: Seq<HandlerRuleModel>)
    ensures
        forall|i: int|
            0 <= i < plan.len() ==> (response_run_from(plan, 0).0.contains(i) <==> {
                ||| (#[trigger] plan[i]).handler_type is ModifyResponse
                ||| plan[i].handler_type is HtmlScriptInjector
                ||| plan[i].handler_type is Delay
            }),
        forall|i: int| response_run_from(plan, 0).0.contains(i) ==> 0 <= i < plan.len(),
        response_run_from(plan, 0).1 == ProcessingStep::ReplyWithUpstream,
{
    law_response_phase_runs_response_handlers(plan);
}

} // verus!
