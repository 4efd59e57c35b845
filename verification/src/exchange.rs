//! A request from its arrival to its answer, as the decisions between the steps that reach outside.
//!
//! A request is admitted by the guards, answered from the cache if it can be, routed, called and
//! settled. A streaming request takes the same path up to the call, without the cache. The program
//! around the library looks into the cache, counts tokens, asks the router, calls the provider and
//! writes records; between two such steps it asks one of these functions what comes next.

use crate::calls::{ChatCompletionResponse, ConnectorResult, ResponseView};
use crate::connectors::{
    ChatCompletionRequest, ChatMessage, ConnectorError, MessageView, RequestView, error_text,
    message_views,
};
use crate::gateway::{
    ApiError, ApiErrorView, ByokRoute, ClientProviderKeys, RouteAnswer, Target, answers_for,
    api_error_of, byok_route, call_error, error_status, no_key_message, resolve_byok_route, resolve_model, routed,
};
use crate::guardrails::{
    LoopGuard, Mark, SpendGuard, SpendWindow, capped_sum, current, history_of, looping, prompt_hash,
    recorded, under_ceiling, window_of,
};
use crate::provider::{Provider, provider_name, vendor_slug};
use crate::rate_limiter::{NANOS_PER_SECOND, RateLimiter, RateLimiterView, quota_of};
use crate::semantic_cache::{CacheEntry, SemanticCache, stores};
use crate::shadow::ShadowBase;
use crate::telemetry::TelemetryData;
use crate::text::same_text;
use crate::text::{text2, text_view};
use vstd::prelude::*;
use vstd::string::*;
use vstd::utf8::encode_utf8;

verus! {

// Admission.

/// The name under which a client is counted; clients without an id are counted together.
pub open spec fn client_key(client_id: Option<Seq<char>>) -> Seq<char> {
    match client_id {
        Some(id) => id,
        None => "anonymous"@,
    }
}

/// The name under which a client is counted.
pub fn client_key_of(client_id: &Option<String>) -> (key: String)
    ensures
        key@ == client_key(text_view(*client_id)),
{
    match client_id {
        Some(id) => id.clone(),
        None => "anonymous".to_string(),
    }
}

/// The text of the last message of the user; empty if there is none.
pub open spec fn last_user_text(messages: Seq<MessageView>) -> Seq<char>
    decreases messages.len(),
{
    if messages.len() == 0 {
        seq![]
    } else if messages.last().role == "user"@ {
        messages.last().content.text()
    } else {
        last_user_text(messages.drop_last())
    }
}

/// The text of the last message of the user.
pub fn last_user_prompt(messages: &Vec<ChatMessage>) -> (s: String)
    ensures
        s@ == last_user_text(message_views(messages@)),
{
    let ghost views = message_views(messages@);
    let mut i: usize = messages.len();
    assert(views.take(views.len() as int) == views);
    while i > 0
        invariant
            views == message_views(messages@),
            i <= messages@.len(),
            last_user_text(views) == last_user_text(views.take(i as int)),
        decreases i,
    {
        let m = &messages[i - 1];
        assert(views.take(i as int).last() == m@);
        assert(views.take(i as int).drop_last() == views.take(i - 1));
        if same_text(m.role.as_str(), "user") {
            return m.content.as_text();
        }
        i = i - 1;
    }
    String::new()
}

/// What the guards say to a request: the rate limit is asked first, then the ceiling on spending,
/// then, if there is a prompt, whether it is a loop.
pub open spec fn admission(
    within_rate: bool,
    under_cap: bool,
    prompt: Seq<char>,
    is_loop: bool,
) -> Result<Seq<char>, ApiErrorView> {
    if !within_rate {
        Err(ApiErrorView::RateLimited)
    } else if !under_cap {
        Err(ApiErrorView::SpendCapExceeded)
    } else if prompt.len() > 0 && is_loop {
        Err(ApiErrorView::LoopDetected)
    } else {
        Ok(prompt)
    }
}

/// A result of admission by its contents.
pub open spec fn admission_view(r: Result<String, ApiError>) -> Result<Seq<char>, ApiErrorView> {
    match r {
        Ok(s) => Ok(s@),
        Err(e) => Err(e@),
    }
}

/// Asks the guards whether a client's request may go on, and returns its prompt. Nothing that costs
/// money happens before. Whether the request is within its rate is the limiter's to say: what it
/// answers is what counts. A request that is refused leaves the guards behind the one that refused it
/// as they were.
pub fn admit_at(
    rate_limiter: &mut RateLimiter,
    spend_guard: &SpendGuard,
    loop_guard: &mut LoopGuard,
    client: &str,
    messages: &Vec<ChatMessage>,
    spend_now: u128,
    loop_now: u128,
) -> (r: Result<String, ApiError>)
    requires
        old(rate_limiter).wf(),
        old(loop_guard).wf(),
    ensures
        final(rate_limiter).wf(),
        final(loop_guard).wf(),
        final(loop_guard).threshold() == old(loop_guard).threshold(),
        final(loop_guard).window() == old(loop_guard).window(),
        ({
            let limits = old(rate_limiter)@.enrolled(client@);
            let prompt = last_user_text(message_views(messages@));
            let call = Mark { hash: prompt_hash(prompt), at: loop_now };
            let history = history_of(old(loop_guard)@, client@);
            let window = old(loop_guard).window();
            let under = under_ceiling(
                spend_guard@,
                client@,
                spend_now,
                spend_guard.window(),
                spend_guard.max(),
            );
            let is_loop = looping(history, call, window, old(loop_guard).threshold());
            exists|within_rate: bool|
                {
                    &&& limits.answered(
                        final(rate_limiter)@,
                        client@,
                        limits.tiers[client@],
                        within_rate,
                    )
                    &&& admission_view(r) == #[trigger] admission(
                        within_rate,
                        under,
                        prompt,
                        is_loop,
                    )
                    &&& final(loop_guard)@ == if within_rate && under && prompt.len() > 0 {
                        old(loop_guard)@.insert(client@, recorded(history, call, window))
                    } else {
                        old(loop_guard)@
                    }
                }
        }),
{
    let ghost prompt = last_user_text(message_views(messages@));
    let ghost call = Mark { hash: prompt_hash(prompt), at: loop_now };
    let ghost history = history_of(loop_guard@, client@);
    let ghost under = under_ceiling(
        spend_guard@,
        client@,
        spend_now,
        spend_guard.window(),
        spend_guard.max(),
    );
    let ghost is_loop = looping(history, call, loop_guard.window(), loop_guard.threshold());
    match rate_limiter.check(client) {
        Err(_) => {
            assert(admission(false, under, prompt, is_loop) == Err::<Seq<char>, ApiErrorView>(
                ApiErrorView::RateLimited,
            ));
            return Err(ApiError::RateLimited);
        },
        Ok(_) => {},
    }
    let ghost verdict = admission(true, under, prompt, is_loop);
    if !spend_guard.check_at(client, spend_now) {
        return Err(ApiError::SpendCapExceeded);
    }
    let text = last_user_prompt(messages);
    if !text.as_str().is_empty() && loop_guard.check_and_record_at(
        client,
        text.as_str(),
        loop_now,
    ) {
        return Err(ApiError::LoopDetected);
    }
    Ok(text)
}

/// The rate limiter's answer decides first: a request that it refuses is answered so and goes no
/// further, whatever the other guards would say; one that it admits is not refused for its rate. (Of
/// a quota so great that the limiter's interval is nothing, the stored time does not tell.)
pub proof fn law_rate_limit_decides_first(
    limits: RateLimiterView,
    after: RateLimiterView,
    client: Seq<char>,
    within_rate: bool,
    under_cap: bool,
    prompt: Seq<char>,
    is_loop: bool,
)
    requires
        limits.answered(after, client, limits.tiers[client], within_rate),
        quota_of(limits.tiers[client]) <= NANOS_PER_SECOND,
    ensures
        admission(within_rate, under_cap, prompt, is_loop) == Err::<Seq<char>, ApiErrorView>(
            ApiErrorView::RateLimited,
        ) <==> !limits.let_through(after, client, limits.tiers[client]),
{
}

/// Whether the client wants its answer as a stream.
pub fn wants_stream(request: &ChatCompletionRequest) -> (r: bool)
    ensures
        r <==> request@.stream == Some(true),
{
    match request.stream {
        Some(b) => b,
        None => false,
    }
}

// The cache.

/// What a lookup in the cache has come to. A hit is read as a response, or cannot be.
#[derive(Debug)]
pub enum CacheAnswer {
    Miss,
    Hit(Result<ChatCompletionResponse, String>),
}

/// What is made of the cache's answer: a hit is the answer to the request, a miss lets it go on,
/// and a hit that cannot be read is an error.
pub fn after_cache(answer: CacheAnswer) -> (r: Result<Option<ChatCompletionResponse>, ApiError>)
    ensures
        match answer {
            CacheAnswer::Miss => r == Ok::<Option<ChatCompletionResponse>, ApiError>(None),
            CacheAnswer::Hit(Ok(response)) => r == Ok::<Option<ChatCompletionResponse>, ApiError>(
                Some(response),
            ),
            CacheAnswer::Hit(Err(e)) => r matches Err(x) && x@ == ApiErrorView::InternalError(
                "Failed to parse cache: "@ + e@,
            ),
        },
{
    match answer {
        CacheAnswer::Miss => Ok(None),
        CacheAnswer::Hit(Ok(response)) => Ok(Some(response)),
        CacheAnswer::Hit(Err(e)) => Err(
            ApiError::InternalError(text2("Failed to parse cache: ", e.as_str())),
        ),
    }
}

/// What is stored of an answer: nothing if the request had no prompt, the answer could not be
/// written as JSON, or the cache is not in use.
pub fn entry_to_store(
    cache: &SemanticCache,
    client: &str,
    prompt: &str,
    response_json: Option<String>,
    model: &str,
) -> (r: Option<CacheEntry>)
    ensures
        r is Some <==> prompt@.len() > 0 && response_json is Some && cache.enabled()
            && cache.has_embedder(),
        r matches Some(e) ==> stores(e, client@, model@, prompt@, response_json->0@),
{
    if prompt.is_empty() {
        return None;
    }
    match response_json {
        Some(json) => cache.store(
            client.to_string(),
            prompt.to_string(),
            json,
            model.to_string(),
        ),
        None => None,
    }
}

// The call.

/// The tokens of a request, or what the client is told if they could not be counted.
pub fn after_counting(counted: Result<u32, String>) -> (r: Result<u32, ApiError>)
    ensures
        match counted {
            Ok(n) => r == Ok::<u32, ApiError>(n),
            Err(e) => r matches Err(x) && x@ == ApiErrorView::InternalError(
                "Token counting failed: "@ + e@,
            ),
        },
{
    match counted {
        Ok(n) => Ok(n),
        Err(e) => Err(ApiError::InternalError(text2("Token counting failed: ", e.as_str()))),
    }
}

/// A call that is to be made.
#[derive(Debug)]
pub struct PlannedCall {
    pub route: ByokRoute,
    /// The model that the request was routed to.
    pub routing_model: String,
    /// The request as the provider is sent it.
    pub request: ChatCompletionRequest,
}

/// What comes of a request that was routed to a target: a call that is paid with the client's key,
/// of the same request for the model's id at the provider that is called; or the error.
pub open spec fn planned(
    req: RequestView,
    keys: ClientProviderKeys,
    target: Result<Target, ApiError>,
    r: Result<PlannedCall, ApiError>,
) -> bool {
    match target {
        Err(e) => r matches Err(x) && x@ == e@,
        Ok(t) => match byok_route(t.provider, t.model@, keys) {
            None => r matches Err(x) && x@ == ApiErrorView::BadRequest(no_key_message(t.provider)),
            Some(route) => r matches Ok(p) && p.route@ == route && p.routing_model@ == t.model@
                && p.request@ == (RequestView { model: route.model_id_to_send, ..req }),
        },
    }
}

/// Plans the call for a request, given what the router has answered to its question and the keys
/// that the client has sent.
pub fn plan_call(
    request: &ChatCompletionRequest,
    input_tokens: u32,
    answer: RouteAnswer,
    keys: &ClientProviderKeys,
) -> (r: Result<PlannedCall, ApiError>)
    requires
        answers_for(request@, answer),
    ensures
        exists|target: Result<Target, ApiError>|
            {
                &&& #[trigger] routed(request@, input_tokens, answer, target)
                &&& planned(request@, *keys, target, r)
            },
{
    let resolved = resolve_model(request, input_tokens, answer);
    let ghost target = resolved;
    assert(routed(request@, input_tokens, answer, target));
    match resolved {
        Err(e) => Err(e),
        Ok(t) => match resolve_byok_route(t.provider, t.model.as_str(), keys) {
            Err(e) => Err(e),
            Ok(route) => {
                let mut effective = request.copy();
                effective.model = route.model_id_to_send.clone();
                Ok(PlannedCall { route, routing_model: t.model, request: effective })
            },
        },
    }
}

/// What is recorded of a call that failed.
#[derive(Debug)]
pub struct FailureRecord {
    pub provider: Provider,
    pub model: String,
    pub error: String,
}

/// What comes of a call that failed: what the client is told, and what is recorded.
pub fn after_failure(call: &PlannedCall, e: &ConnectorError) -> (r: (ApiError, FailureRecord))
    ensures
        r.0@ == call_error(e@),
        r.1.provider == call.route.provider_to_call,
        r.1.model@ == call.routing_model@,
        r.1.error@ == error_text(e@),
{
    (
        api_error_of(e),
        FailureRecord {
            provider: call.route.provider_to_call,
            model: call.routing_model.clone(),
            error: e.message(),
        },
    )
}

// Settling.

/// The price of a flagship model, in cents for a million input tokens.
pub const BASELINE_INPUT_CENTS: u64 = 500;

/// The price of a flagship model, in cents for a million output tokens.
pub const BASELINE_OUTPUT_CENTS: u64 = 3000;

/// What a call would have cost with a flagship model, in micro-cents. A cent for a million tokens
/// is a micro-cent for each.
pub open spec fn baseline(input_tokens: u32, output_tokens: u32) -> int {
    input_tokens * BASELINE_INPUT_CENTS + output_tokens * BASELINE_OUTPUT_CENTS
}

/// What a call would have cost with a flagship model, in micro-cents.
pub fn baseline_cost(input_tokens: u32, output_tokens: u32) -> (c: u64)
    ensures
        c == baseline(input_tokens, output_tokens),
        c <= i64::MAX,
{
    assert(input_tokens * BASELINE_INPUT_CENTS <= u32::MAX * BASELINE_INPUT_CENTS)
        by (nonlinear_arith);
    assert(output_tokens * BASELINE_OUTPUT_CENTS <= u32::MAX * BASELINE_OUTPUT_CENTS)
        by (nonlinear_arith);
    input_tokens as u64 * BASELINE_INPUT_CENTS + output_tokens as u64 * BASELINE_OUTPUT_CENTS
}

/// The text of a response: that of its first choice, empty if there is none.
pub open spec fn response_text(r: ResponseView) -> Seq<char> {
    if r.choices.len() > 0 {
        r.choices[0].message.content.text()
    } else {
        seq![]
    }
}

/// The text of a response.
pub fn answer_text(response: &ChatCompletionResponse) -> (s: String)
    ensures
        s@ == response_text(response@),
{
    if response.choices.len() > 0 {
        assert(response@.choices[0] == response.choices@[0]@);
        response.choices[0].message.content.as_text()
    } else {
        String::new()
    }
}

/// The length of a response's text in bytes.
pub fn answer_len(response: &ChatCompletionResponse) -> (n: usize)
    ensures
        n == encode_utf8(response_text(response@)).len() as usize,
{
    let s = answer_text(response);
    s.as_str().len()
}

/// A call that has succeeded.
#[derive(Debug)]
pub struct CompletedCall {
    pub request_id: String,
    pub client_id: Option<String>,
    pub input_tokens: u32,
    /// The model that the request was routed to, by whose price the call is billed.
    pub routing_model: String,
    /// The provider that was called.
    pub provider: Provider,
    pub result: ConnectorResult,
}

/// What comes of a call that has succeeded.
#[derive(Debug)]
pub struct Completion {
    /// What the call cost, in micro-cents.
    pub cost: u64,
    /// What a flagship model would have cost, in micro-cents.
    pub baseline_cost: u64,
    pub telemetry: TelemetryData,
    /// The model to call for comparison, and what to compare with.
    pub shadow: Option<(String, ShadowBase)>,
}

/// What is recorded of a call that has succeeded.
pub open spec fn completion_record(
    d: TelemetryData,
    call: CompletedCall,
    cost: u64,
    timestamp: i64,
) -> bool {
    let r = call.result;
    &&& d.request_id@ == call.request_id@
    &&& d.timestamp == timestamp
    &&& d.chosen_model@ == r.response.model@
    &&& d.shadow_model is None
    &&& d.latency_ms == r.latency_ms
    &&& d.shadow_latency_ms is None
    &&& d.chosen_cost == cost
    &&& d.baseline_cost == baseline(call.input_tokens, r.output_tokens)
    &&& d.cost_delta == baseline(call.input_tokens, r.output_tokens) - cost
    &&& d.priority@ == "balanced"@
    &&& d.user_tier@.len() == 0
    &&& !d.failover_triggered
    &&& d.provider@ == provider_name(call.provider)
    &&& d.success
    &&& d.error is None
    &&& d.tokens_used == call.input_tokens + r.output_tokens
    &&& d.client_id@ == client_key(text_view(call.client_id))
}

/// What a comparison is made with.
pub open spec fn comparison_base(b: ShadowBase, call: CompletedCall, cost: u64) -> bool {
    &&& b.request_id@ == call.request_id@
    &&& text_view(b.client_id) == text_view(call.client_id)
    &&& b.primary_model@ == call.result.response.model@
    &&& b.primary_provider == call.provider
    &&& b.primary_cost == cost
    &&& b.primary_latency_ms == call.result.latency_ms
    &&& b.primary_output_chars == encode_utf8(response_text(call.result.response@)).len() as usize
}

/// Settles a call that has succeeded, given its cost in micro-cents, if the model's price is known.
/// The cost is counted against the client's ceiling, and a comparison is called for if the client
/// has asked for one and comparisons are allowed.
pub fn complete_at(
    spend_guard: &mut SpendGuard,
    call: &CompletedCall,
    cost: Result<u64, String>,
    shadow_enabled: bool,
    shadow_model: &Option<String>,
    timestamp: i64,
    now: u128,
) -> (r: Result<Completion, ApiError>)
    requires
        call.input_tokens + call.result.output_tokens <= u32::MAX,
        cost matches Ok(c) ==> c <= i64::MAX,
    ensures
        final(spend_guard).same_limits(old(spend_guard)),
        match cost {
            Err(_) => {
                &&& r matches Err(x) && x@ == ApiErrorView::InternalError("Pricing lookup failed"@)
                &&& final(spend_guard)@ == old(spend_guard)@
            },
            Ok(cost) => {
                let client = client_key(text_view(call.client_id));
                let c = current(
                    window_of(old(spend_guard)@, client, now),
                    now,
                    old(spend_guard).window(),
                );
                &&& final(spend_guard)@ == old(spend_guard)@.insert(
                    client,
                    SpendWindow { spent: capped_sum(c.spent as nat, cost as nat), ..c },
                )
                &&& r is Ok
                &&& r->Ok_0.cost == cost
                &&& r->Ok_0.baseline_cost == baseline(call.input_tokens, call.result.output_tokens)
                &&& completion_record(r->Ok_0.telemetry, *call, cost, timestamp)
                &&& r->Ok_0.shadow is Some <==> shadow_enabled && shadow_model is Some
                &&& r->Ok_0.shadow matches Some(s) ==> {
                    &&& s.0@ == shadow_model->0@
                    &&& comparison_base(s.1, *call, cost)
                }
            },
        },
{
    let cost = match cost {
        Err(_) => {
            return Err(ApiError::InternalError("Pricing lookup failed".to_string()));
        },
        Ok(c) => c,
    };
    let client = client_key_of(&call.client_id);
    spend_guard.record_spend_at(client.as_str(), cost as u128, now);
    let output_tokens: u32 = call.result.output_tokens;
    let baseline_cost: u64 = baseline_cost(call.input_tokens, output_tokens);
    let mut telemetry = TelemetryData::new_at(
        call.request_id.clone(),
        call.result.response.model.clone(),
        cost,
        baseline_cost,
        client,
        timestamp,
    );
    telemetry.latency_ms = call.result.latency_ms;
    telemetry.priority = "balanced".to_string();
    telemetry.provider = call.provider.name().to_string();
    telemetry.success = true;
    telemetry.tokens_used = call.input_tokens + output_tokens;
    let shadow = match shadow_model {
        Some(model) => {
            if shadow_enabled {
                let client_id = match &call.client_id {
                    Some(id) => Some(id.clone()),
                    None => None,
                };
                let base = ShadowBase {
                    request_id: call.request_id.clone(),
                    client_id,
                    primary_model: call.result.response.model.clone(),
                    primary_provider: call.provider,
                    primary_cost: cost,
                    primary_latency_ms: call.result.latency_ms,
                    primary_output_chars: answer_len(&call.result.response),
                };
                Some((model.clone(), base))
            } else {
                None
            }
        },
        None => None,
    };
    Ok(Completion { cost, baseline_cost, telemetry, shadow })
}

/// The prompt is the text of the user's last message: whatever others say after it does not matter, and
/// there is none where no message is the user's.
pub proof fn law_the_users_last_message_is_the_prompt(
    before: Seq<MessageView>,
    m: MessageView,
    after: Seq<MessageView>,
)
    requires
        forall|i: int| 0 <= i < after.len() ==> (#[trigger] after[i]).role != "user"@,
    ensures
        last_user_text(after).len() == 0,
        m.role == "user"@ ==> last_user_text(before.push(m) + after) == m.content.text(),
        last_user_text(before + after) == last_user_text(before),
    decreases after.len(),
{
    let whole = before.push(m) + after;
    if after.len() > 0 {
        let rest = after.drop_last();
        assert forall|i: int| 0 <= i < rest.len() implies (#[trigger] rest[i]).role != "user"@ by {
            assert(rest[i] == after[i]);
        }
        law_the_users_last_message_is_the_prompt(before, m, rest);
        assert(whole.drop_last() == before.push(m) + rest);
        assert((before + after).drop_last() == before + rest);
        assert(after[after.len() - 1].role != "user"@);
    } else {
        assert(whole == before.push(m));
        assert(before + after == before);
    }
}

/// Clients without an id are counted together as `anonymous`, and every other under its own id.
pub proof fn law_clients_are_counted_by_their_id(id: Seq<char>)
    ensures
        client_key(Some(id)) == id,
        client_key(None) == "anonymous"@,
{
}

/// What the guards say: over the rate, the request is refused for that, whatever the others say; else
/// over the ceiling, for that; else, with a prompt that loops, for that; and else it is admitted with its
/// own prompt. All three refusals are answered with 429.
pub proof fn law_guards_refuse_in_order(
    within_rate: bool,
    under_cap: bool,
    prompt: Seq<char>,
    is_loop: bool,
)
    ensures
        ({
            let r = admission(within_rate, under_cap, prompt, is_loop);
            &&& r is Ok <==> within_rate && under_cap && !(is_loop && prompt.len() > 0)
            &&& r matches Ok(p) ==> p == prompt
            &&& !within_rate ==> r is Err && r->Err_0 is RateLimited
            &&& within_rate && !under_cap ==> r is Err && r->Err_0 is SpendCapExceeded
            &&& within_rate && under_cap && is_loop && prompt.len() > 0 ==> r is Err
                && r->Err_0 is LoopDetected
            &&& r matches Err(e) ==> error_status(e) == 429
        }),
{
}

/// A planned call is the request itself for the model's id at the provider that is called, paid with the
/// client's key for that provider; without a key it is refused as a bad request.
pub proof fn law_planned_calls_are_the_clients_request(
    req: RequestView,
    keys: ClientProviderKeys,
    t: Target,
    r: Result<PlannedCall, ApiError>,
)
    requires
        planned(req, keys, Ok(t), r),
    ensures
        keys.key(t.provider) is Some ==> (r matches Ok(p) && p.route.provider_to_call == t.provider
            && p.route.model_id_to_send@ == t.model@ && Some(p.route.api_key@) == keys.key(
            t.provider,
        ) && p.request@.model == t.model@),
        keys.key(t.provider) is None && keys.key(Provider::OpenRouter) is Some ==> (r matches Ok(p)
            && p.route.provider_to_call == Provider::OpenRouter && p.request@.model == vendor_slug(
            t.provider,
        ) + "/"@ + t.model@ && Some(p.route.api_key@) == keys.key(Provider::OpenRouter)),
        keys.key(t.provider) is None && keys.key(Provider::OpenRouter) is None ==> (r matches Err(e)
            && error_status(e@) == 400),
        r matches Ok(p) ==> {
            &&& p.routing_model@ == t.model@
            &&& p.request@.messages == req.messages
            &&& p.request@.max_tokens == req.max_tokens
            &&& p.request@.temperature == req.temperature
            &&& p.request@.top_p == req.top_p
            &&& p.request@.stream == req.stream
        },
{
}

/// A request that could not be routed is refused with the router's error.
pub proof fn law_unrouted_requests_are_refused(
    req: RequestView,
    keys: ClientProviderKeys,
    e: ApiError,
    r: Result<PlannedCall, ApiError>,
)
    requires
        planned(req, keys, Err(e), r),
    ensures
        r matches Err(x) && x@ == e@,
{
}

/// A flagship model would have cost five dollars for a million input tokens and thirty for a million
/// output tokens: 500 and 3000 cents.
pub proof fn law_baseline_is_linear_in_the_tokens(input: u32, output: u32)
    ensures
        baseline(0, 0) == 0,
        input < u32::MAX ==> baseline((input + 1) as u32, output) == baseline(input, output) + 500,
        output < u32::MAX ==> baseline(input, (output + 1) as u32) == baseline(input, output)
            + 3000,
        baseline(1_000_000, 0) == 500 * 1_000_000,
        baseline(0, 1_000_000) == 3000 * 1_000_000,
{
    assert((input + 1) * BASELINE_INPUT_CENTS == input * BASELINE_INPUT_CENTS
        + BASELINE_INPUT_CENTS) by (nonlinear_arith);
    assert((output + 1) * BASELINE_OUTPUT_CENTS == output * BASELINE_OUTPUT_CENTS
        + BASELINE_OUTPUT_CENTS) by (nonlinear_arith);
}

/// The text of a response is that of its first choice; the others do not matter.
pub proof fn law_the_first_choice_is_the_answer(r: ResponseView, other: ResponseView)
    ensures
        r.choices.len() == 0 ==> response_text(r).len() == 0,
        r.choices.len() > 0 ==> response_text(r) == r.choices[0].message.content.text(),
        r.choices.len() > 0 && other.choices.len() > 0 && r.choices[0] == other.choices[0]
            ==> response_text(r) == response_text(other),
{
}

/// What is recorded of a call: the request and the client, the model that answered, the provider that was
/// called, its cost, what a flagship model would have cost and the difference, its latency and all its
/// tokens.
pub proof fn law_completed_calls_are_recorded(
    d: TelemetryData,
    call: CompletedCall,
    cost: u64,
    timestamp: i64,
)
    requires
        completion_record(d, call, cost, timestamp),
    ensures
        d.request_id@ == call.request_id@,
        d.timestamp == timestamp,
        d.chosen_model@ == call.result.response.model@,
        d.provider@ == provider_name(call.provider),
        d.latency_ms == call.result.latency_ms,
        d.chosen_cost == cost,
        d.baseline_cost == 500 * call.input_tokens + 3000 * call.result.output_tokens,
        d.chosen_cost + d.cost_delta == d.baseline_cost,
        d.tokens_used == call.input_tokens + call.result.output_tokens,
        d.success,
        d.error is None,
        !d.failover_triggered,
        d.shadow_model is None,
        call.client_id matches Some(id) ==> d.client_id@ == id@,
        call.client_id is None ==> d.client_id@ == "anonymous"@,
        d.priority@ == "balanced"@,
        d.user_tier@.len() == 0,
        d.shadow_latency_ms is None,
{
}

/// A comparison is made with the call as it was.
pub proof fn law_comparisons_are_with_the_call(b: ShadowBase, call: CompletedCall, cost: u64)
    requires
        comparison_base(b, call, cost),
    ensures
        b.request_id@ == call.request_id@,
        b.client_id is Some <==> call.client_id is Some,
        call.client_id matches Some(id) ==> b.client_id->0@ == id@,
        b.primary_model@ == call.result.response.model@,
        b.primary_provider == call.provider,
        b.primary_cost == cost,
        b.primary_latency_ms == call.result.latency_ms,
        b.primary_output_chars == encode_utf8(response_text(call.result.response@)).len() as usize,
{
}

} // verus!
