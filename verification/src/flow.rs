//! The course of an exchange: what is done next, after every step that reaches outside.
//!
//! [`begin`] admits a request and says what is done first. The program around the library does it,
//! and hands what came of it to [`step`], which says what is done next, until the client is
//! answered.

use crate::calls::{ChatCompletionResponse, ConnectorResult};
use crate::connectors::{ChatCompletionRequest, ConnectorError, error_text, message_views};
use crate::exchange::{
    CacheAnswer, CompletedCall, FailureRecord, PlannedCall, admission, admit_at, after_cache,
    after_counting, after_failure, client_key, client_key_of, entry_to_store, last_user_text,
    plan_call, planned, wants_stream,
};
use crate::gateway::{
    ApiError, ApiErrorView, ClientProviderKeys, RouteAnswer, RouteQuestion, Target, answers_for,
    call_error, has_image, law_client_pays, law_images_reach_models_that_see, lists_only_seeing,
    question_for, route_question, routed, targets,
};
use crate::guardrails::{
    LoopGuard, Mark, SpendGuard, history_of, looping, prompt_hash, recorded, under_ceiling,
};
use crate::rate_limiter::RateLimiter;
use crate::semantic_cache::{
    CacheEntry, EXACT_SIMILARITY, HitView, SemanticCache, StoredRow, after_store, cache_key, has_key,
    lookup_result, row_of, stores,
};
use crate::text::text_view;
use crate::vision::ModelConfig;
use vstd::prelude::*;
use vstd::string::*;

verus! {

/// How far an exchange has come.
#[derive(Debug)]
pub enum Stage {
    /// The cache is asked.
    Lookup,
    /// The tokens of the request are counted.
    Counting,
    /// The router is asked.
    Routing { input_tokens: u32 },
    /// The provider is called.
    Calling { input_tokens: u32, call: PlannedCall },
    /// The client is answered, or its stream has been handed over.
    Ended,
}

/// A request on its way to its answer.
#[derive(Debug)]
pub struct Exchange {
    pub request_id: String,
    pub client_id: Option<String>,
    pub request: ChatCompletionRequest,
    /// The text of the user's last message.
    pub prompt: String,
    pub stage: Stage,
}

/// What has come of a step.
#[derive(Debug)]
pub enum Event {
    Cache(CacheAnswer),
    Counted(Result<u32, String>),
    /// The router's answer; and the keys that the client has sent.
    Routed(RouteAnswer, ClientProviderKeys),
    Answered(Result<ConnectorResult, ConnectorError>),
}

/// What is done next.
#[derive(Debug)]
pub enum Action {
    /// Look the prompt up in the cache, among the client's entries for the model.
    LookUp { client: String, prompt: String, model: String },
    /// Count the tokens of the request.
    CountTokens,
    /// Ask the router.
    AskRouter(RouteQuestion),
    /// Make the planned call, once a permit is free.
    Call,
    /// Make the planned call and hand its stream to the client.
    Stream,
    /// Answer the client with a cached response.
    Serve(ChatCompletionResponse),
    /// Answer the client with an error.
    Refuse(ApiError),
    /// Record that the call has failed, and answer the client with an error.
    Fail(ApiError, FailureRecord),
    /// Settle the call, and answer the client with its response.
    Settle(CompletedCall),
}

/// Whether an exchange waits for such an event: what comes of the step that it has come to. The router
/// answers the question that it was asked.
pub open spec fn expects(exchange: Exchange, event: Event) -> bool {
    match exchange.stage {
        Stage::Lookup => event is Cache,
        Stage::Counting => event is Counted,
        Stage::Routing { .. } => event matches Event::Routed(answer, keys) && answers_for(
            exchange.request@,
            answer,
        ),
        Stage::Calling { .. } => event is Answered,
        Stage::Ended => false,
    }
}

/// The exchange has ended with an error.
pub open spec fn refused(after: Exchange, action: Action, e: ApiErrorView) -> bool {
    &&& after.stage is Ended
    &&& action matches Action::Refuse(x) && x@ == e
}

/// The exchange goes on with a planned call, or has ended because none could be planned.
pub open spec fn goes_on(
    before: Exchange,
    after: Exchange,
    action: Action,
    input_tokens: u32,
    plan: Result<PlannedCall, ApiError>,
) -> bool {
    match plan {
        Ok(call) => {
            &&& after.stage == (Stage::Calling { input_tokens, call })
            &&& if before.request@.stream == Some(true) {
                action is Stream
            } else {
                action is Call
            }
        },
        Err(e) => refused(after, action, e@),
    }
}

/// What is done next after an event, and how far the exchange has come then.
pub open spec fn stepped(before: Exchange, event: Event, after: Exchange, action: Action) -> bool {
    &&& after.request_id == before.request_id
    &&& after.client_id == before.client_id
    &&& after.request == before.request
    &&& after.prompt == before.prompt
    &&& match (before.stage, event) {
        (Stage::Lookup, Event::Cache(CacheAnswer::Miss)) => after.stage is Counting
            && action is CountTokens,
        (Stage::Lookup, Event::Cache(CacheAnswer::Hit(Ok(response)))) => after.stage is Ended
            && action == Action::Serve(response),
        (Stage::Lookup, Event::Cache(CacheAnswer::Hit(Err(e)))) => refused(
            after,
            action,
            ApiErrorView::InternalError("Failed to parse cache: "@ + e@),
        ),
        (Stage::Counting, Event::Counted(Ok(n))) => {
            &&& after.stage == (Stage::Routing { input_tokens: n })
            &&& action matches Action::AskRouter(q) && question_for(before.request@, q)
        },
        (Stage::Counting, Event::Counted(Err(e))) => refused(
            after,
            action,
            ApiErrorView::InternalError("Token counting failed: "@ + e@),
        ),
        (Stage::Routing { input_tokens }, Event::Routed(answer, keys)) => exists|
            target: Result<Target, ApiError>,
            plan: Result<PlannedCall, ApiError>,
        |
            {
                &&& #[trigger] routed(before.request@, input_tokens, answer, target)
                &&& #[trigger] planned(before.request@, keys, target, plan)
                &&& goes_on(before, after, action, input_tokens, plan)
            },
        (Stage::Calling { input_tokens, call }, Event::Answered(Err(e))) => {
            &&& after.stage is Ended
            &&& action matches Action::Fail(x, record) && x@ == call_error(e@) && record.provider
                == call.route.provider_to_call && record.model@ == call.routing_model@
                && record.error@ == error_text(e@)
        },
        (Stage::Calling { input_tokens, call }, Event::Answered(Ok(result))) => {
            &&& after.stage is Ended
            &&& action matches Action::Settle(done) && done.request_id@ == before.request_id@
                && text_view(done.client_id) == text_view(before.client_id) && done.input_tokens
                == input_tokens && done.routing_model@ == call.routing_model@ && done.provider
                == call.route.provider_to_call && done.result == result
        },
        _ => false,
    }
}

/// What is done next, given what has come of the step that was to be done.
pub fn step(exchange: Exchange, event: Event) -> (r: (Exchange, Action))
    requires
        expects(exchange, event),
    ensures
        stepped(exchange, event, r.0, r.1),
{
    let Exchange { request_id, client_id, request, prompt, stage } = exchange;
    let (stage, action) = match (stage, event) {
        (Stage::Lookup, Event::Cache(answer)) => match after_cache(answer) {
            Ok(None) => (Stage::Counting, Action::CountTokens),
            Ok(Some(response)) => (Stage::Ended, Action::Serve(response)),
            Err(e) => (Stage::Ended, Action::Refuse(e)),
        },
        (Stage::Counting, Event::Counted(counted)) => match after_counting(counted) {
            Ok(input_tokens) => (
                Stage::Routing { input_tokens },
                Action::AskRouter(route_question(&request)),
            ),
            Err(e) => (Stage::Ended, Action::Refuse(e)),
        },
        (Stage::Routing { input_tokens }, Event::Routed(answer, keys)) => {
            let plan = plan_call(&request, input_tokens, answer, &keys);
            let ghost made = plan;
            proof {
                let target = choose|target: Result<Target, ApiError>|
                    {
                        &&& #[trigger] routed(request@, input_tokens, answer, target)
                        &&& planned(request@, keys, target, made)
                    };
                assert(routed(request@, input_tokens, answer, target));
                assert(planned(request@, keys, target, made));
            }
            match plan {
                Ok(call) => {
                    if wants_stream(&request) {
                        (Stage::Calling { input_tokens, call }, Action::Stream)
                    } else {
                        (Stage::Calling { input_tokens, call }, Action::Call)
                    }
                },
                Err(e) => (Stage::Ended, Action::Refuse(e)),
            }
        },
        (Stage::Calling { input_tokens, call }, Event::Answered(answer)) => match answer {
            Err(e) => {
                let (told, record) = after_failure(&call, &e);
                (Stage::Ended, Action::Fail(told, record))
            },
            Ok(result) => {
                let client = match &client_id {
                    Some(id) => Some(id.clone()),
                    None => None,
                };
                let done = CompletedCall {
                    request_id: request_id.clone(),
                    client_id: client,
                    input_tokens,
                    provider: call.route.provider_to_call,
                    routing_model: call.routing_model,
                    result,
                };
                (Stage::Ended, Action::Settle(done))
            },
        },
        _ => vstd::pervasive::unreached(),
    };
    (Exchange { request_id, client_id, request, prompt, stage }, action)
}

/// What is done first for a request that was admitted with a prompt: it is looked up in the cache if
/// it has a prompt and is not streamed; otherwise its tokens are counted.
pub open spec fn begun(after: Exchange, action: Action) -> bool {
    let req = after.request@;
    if after.prompt@.len() > 0 && req.stream != Some(true) {
        &&& after.stage is Lookup
        &&& action matches Action::LookUp { client, prompt, model } && client@ == client_key(
            text_view(after.client_id),
        ) && prompt@ == after.prompt@ && model@ == req.model
    } else {
        &&& after.stage is Counting
        &&& action is CountTokens
    }
}

/// Begins the exchange for a request: asks the guards, and says what is done first.
pub fn begin(
    rate_limiter: &mut RateLimiter,
    spend_guard: &SpendGuard,
    loop_guard: &mut LoopGuard,
    request_id: String,
    client_id: Option<String>,
    request: ChatCompletionRequest,
    spend_now: u128,
    loop_now: u128,
) -> (r: (Exchange, Action))
    requires
        old(rate_limiter).wf(),
        old(loop_guard).wf(),
    ensures
        final(rate_limiter).wf(),
        final(loop_guard).wf(),
        final(loop_guard).threshold() == old(loop_guard).threshold(),
        final(loop_guard).window() == old(loop_guard).window(),
        r.0.request_id == request_id,
        r.0.client_id == client_id,
        r.0.request == request,
        ({
            let client = client_key(text_view(client_id));
            let limits = old(rate_limiter)@.enrolled(client);
            let prompt = last_user_text(message_views(request.messages@));
            let call = Mark { hash: prompt_hash(prompt), at: loop_now };
            let history = history_of(old(loop_guard)@, client);
            let window = old(loop_guard).window();
            let under = under_ceiling(
                spend_guard@,
                client,
                spend_now,
                spend_guard.window(),
                spend_guard.max(),
            );
            let is_loop = looping(history, call, window, old(loop_guard).threshold());
            exists|within_rate: bool|
                {
                    &&& limits.answered(
                        final(rate_limiter)@,
                        client,
                        limits.tiers[client],
                        within_rate,
                    )
                    &&& match #[trigger] admission(within_rate, under, prompt, is_loop) {
                        Ok(p) => r.0.prompt@ == p && begun(r.0, r.1),
                        Err(e) => refused(r.0, r.1, e),
                    }
                    &&& final(loop_guard)@ == if within_rate && under && prompt.len() > 0 {
                        old(loop_guard)@.insert(client, recorded(history, call, window))
                    } else {
                        old(loop_guard)@
                    }
                }
        }),
{
    let client = client_key_of(&client_id);
    let admitted = admit_at(
        rate_limiter,
        spend_guard,
        loop_guard,
        client.as_str(),
        &request.messages,
        spend_now,
        loop_now,
    );
    let (prompt, stage, action) = match admitted {
        Err(e) => (String::new(), Stage::Ended, Action::Refuse(e)),
        Ok(prompt) => {
            if !prompt.as_str().is_empty() && !wants_stream(&request) {
                let action = Action::LookUp {
                    client,
                    prompt: prompt.clone(),
                    model: request.model.clone(),
                };
                (prompt, Stage::Lookup, action)
            } else {
                (prompt, Stage::Counting, Action::CountTokens)
            }
        },
    };
    (Exchange { request_id, client_id, request, prompt, stage }, action)
}

/// What is stored of the answer to an exchange, for the client's later requests of the same prompt and
/// model. The model is the one that the client has asked for, under which the lookup asks, and not the
/// one that has answered. Nothing is stored if the request had no prompt, the answer could
/// not be written as JSON, or the cache is not in use.
pub fn entry_of(
    cache: &SemanticCache,
    exchange: &Exchange,
    response_json: Option<String>,
) -> (r: Option<CacheEntry>)
    ensures
        r is Some <==> exchange.prompt@.len() > 0 && response_json is Some && cache.enabled()
            && cache.has_embedder(),
        r matches Some(e) ==> stores(
            e,
            client_key(text_view(exchange.client_id)),
            exchange.request@.model,
            exchange.prompt@,
            response_json->0@,
        ),
{
    let client = client_key_of(&exchange.client_id);
    entry_to_store(
        cache,
        client.as_str(),
        exchange.prompt.as_str(),
        response_json,
        exchange.request.model.as_str(),
    )
}

/// What was stored of an answer is found by the client's next request of the same prompt and model,
/// whatever model answered: that request begins with a lookup, and the lookup gives the stored answer,
/// with full similarity, wherever the table can be read.
pub proof fn law_stored_answer_serves_the_next_request(
    entry: CacheEntry,
    response: Seq<char>,
    first: Exchange,
    next: Exchange,
    action: Action,
    table: Set<StoredRow>,
    similarity: Option<u64>,
    embedded: bool,
    nearest_readable: bool,
    hit: Option<HitView>,
)
    requires
        stores(
            entry,
            client_key(text_view(first.client_id)),
            first.request@.model,
            first.prompt@,
            response,
        ),
        first.prompt@.len() > 0,
        text_view(next.client_id) == text_view(first.client_id),
        next.request@.model == first.request@.model,
        next.prompt@ == first.prompt@,
        next.request@.stream != Some(true),
        begun(next, action),
        forall|r: StoredRow| #[trigger]
            table.contains(r) ==> !has_key(r, entry.client_id@, entry.prompt_hash@),
        action matches Action::LookUp { client, prompt, model } ==> lookup_result(
            after_store(table, row_of(entry, similarity)),
            client@,
            model@,
            prompt@,
            true,
            true,
            embedded,
            nearest_readable,
            hit,
        ),
    ensures
        action is LookUp,
        hit == Some(
            HitView {
                cached_response: response,
                model_used: first.request@.model,
                similarity: EXACT_SIMILARITY,
            },
        ),
{
    let client = client_key(text_view(first.client_id));
    let key = cache_key(client, first.request@.model, first.prompt@);
    let row = row_of(entry, similarity);
    let after = after_store(table, row);
    assert(after == table.insert(row));
    assert(after.contains(row) && has_key(row, client, key));
    assert forall|r: StoredRow| #[trigger] after.contains(r) && has_key(r, client, key) implies r
        == row by {
        assert(r == row || table.contains(r));
    }
}

/// A provider is called only for a request that was routed, and with the key that the client has
/// sent for that provider.
pub proof fn law_calls_are_routed_and_paid(
    before: Exchange,
    event: Event,
    after: Exchange,
    action: Action,
)
    requires
        stepped(before, event, after, action),
        action is Call || action is Stream,
    ensures
        before.stage is Routing,
        after.stage is Calling,
        event matches Event::Routed(answer, keys) && keys.key(
            after.stage->call.route.provider_to_call,
        ) == Some(after.stage->call.route.api_key@),
{
    match (before.stage, event) {
        (Stage::Routing { input_tokens }, Event::Routed(answer, keys)) => {
            let (target, plan) = choose|
                target: Result<Target, ApiError>,
                plan: Result<PlannedCall, ApiError>,
            |
                {
                    &&& #[trigger] routed(before.request@, input_tokens, answer, target)
                    &&& #[trigger] planned(before.request@, keys, target, plan)
                    &&& goes_on(before, after, action, input_tokens, plan)
                };
            assert(plan is Ok);
            assert(target is Ok);
            law_client_pays(
                target->Ok_0.provider,
                target->Ok_0.model@,
                keys,
            );
        },
        _ => {},
    }
}

/// A request with an image is never sent to a model that is known not to see: where the router
/// chooses, the call is of a model that can see; a model that the client has pinned and that cannot
/// is not called.
pub proof fn law_calls_with_images_are_of_models_that_see(
    before: Exchange,
    event: Event,
    after: Exchange,
    action: Action,
)
    requires
        stepped(before, event, after, action),
        action is Call || action is Stream,
        has_image(before.request@.messages),
        event matches Event::Routed(answer, keys) ==> lists_only_seeing(answer),
    ensures
        event matches Event::Routed(answer, keys) && match answer {
            RouteAnswer::Pinned { provider, supports_vision } => supports_vision != Some(false)
                && after.stage->call.routing_model@ == before.request@.model,
            _ => exists|m: ModelConfig|
                m.supports_vision && #[trigger] after.stage->call.routing_model@ == m.api_id@,
        },
{
    match (before.stage, event) {
        (Stage::Routing { input_tokens }, Event::Routed(answer, keys)) => {
            let (target, plan) = choose|
                target: Result<Target, ApiError>,
                plan: Result<PlannedCall, ApiError>,
            |
                {
                    &&& #[trigger] routed(before.request@, input_tokens, answer, target)
                    &&& #[trigger] planned(before.request@, keys, target, plan)
                    &&& goes_on(before, after, action, input_tokens, plan)
                };
            assert(plan is Ok && target is Ok);
            law_images_reach_models_that_see(before.request@, input_tokens, answer, target);
            if !(answer is Pinned) {
                let m = choose|m: ModelConfig|
                    m.supports_vision && #[trigger] targets(target->Ok_0, m);
                assert(after.stage->call.routing_model@ == m.api_id@);
            }
        },
        _ => {},
    }
}

/// A request that the guards refuse is over before it has begun: no step follows, so nothing is
/// called or billed for it.
pub proof fn law_refused_requests_are_over(
    after: Exchange,
    action: Action,
    e: ApiErrorView,
    later: Event,
)
    requires
        refused(after, action, e),
    ensures
        !expects(after, later),
{
}

/// A request that is answered from the cache or refused is over: no step follows, so nothing is
/// called or billed for it.
pub proof fn law_answered_exchanges_are_over(
    before: Exchange,
    event: Event,
    after: Exchange,
    action: Action,
    later: Event,
)
    requires
        stepped(before, event, after, action),
        action is Serve || action is Refuse || action is Fail || action is Settle,
    ensures
        after.stage is Ended,
        !expects(after, later),
{
    match (before.stage, event) {
        (Stage::Routing { input_tokens }, Event::Routed(answer, keys)) => {
            let (target, plan) = choose|
                target: Result<Target, ApiError>,
                plan: Result<PlannedCall, ApiError>,
            |
                {
                    &&& #[trigger] routed(before.request@, input_tokens, answer, target)
                    &&& #[trigger] planned(before.request@, keys, target, plan)
                    &&& goes_on(before, after, action, input_tokens, plan)
                };
        },
        _ => {},
    }
}

/// A cached answer is served as it is, and ends the exchange; one that cannot be read is an internal
/// error; without one the tokens are counted.
pub proof fn law_cached_answers_are_served(
    before: Exchange,
    answer: CacheAnswer,
    after: Exchange,
    action: Action,
)
    requires
        stepped(before, Event::Cache(answer), after, action),
    ensures
        before.stage is Lookup,
        answer matches CacheAnswer::Hit(Ok(response)) ==> action == Action::Serve(response)
            && after.stage is Ended,
        answer matches CacheAnswer::Hit(Err(e)) ==> (action matches Action::Refuse(x) && x@
            == ApiErrorView::InternalError("Failed to parse cache: "@ + e@)) && after.stage is Ended,
        answer is Miss ==> action is CountTokens && after.stage is Counting,
{
}

/// The tokens that were counted are those that the request is routed with, called with and settled with.
pub proof fn law_counted_tokens_are_settled(
    begun_at: Exchange,
    n: u32,
    asked: Exchange,
    ask: Action,
    answer: RouteAnswer,
    keys: ClientProviderKeys,
    calling: Exchange,
    call: Action,
    result: ConnectorResult,
    over: Exchange,
    last: Action,
)
    requires
        stepped(begun_at, Event::Counted(Ok(n)), asked, ask),
        stepped(asked, Event::Routed(answer, keys), calling, call),
        call is Call,
        stepped(calling, Event::Answered(Ok(result)), over, last),
    ensures
        ask is AskRouter,
        question_for(begun_at.request@, ask->AskRouter_0),
        last matches Action::Settle(done) && {
            &&& done.input_tokens == n
            &&& done.request_id@ == begun_at.request_id@
            &&& done.client_id is Some <==> begun_at.client_id is Some
            &&& begun_at.client_id matches Some(id) ==> done.client_id->0@ == id@
            &&& done.result == result
            &&& done.provider == calling.stage->call.route.provider_to_call
            &&& done.routing_model@ == calling.stage->call.routing_model@
        },
        over.stage is Ended,
{
    let (target, plan) = choose|
        target: Result<Target, ApiError>,
        plan: Result<PlannedCall, ApiError>,
    |
        {
            &&& #[trigger] routed(asked.request@, n, answer, target)
            &&& #[trigger] planned(asked.request@, keys, target, plan)
            &&& goes_on(asked, calling, call, n, plan)
        };
    assert(plan is Ok);
}

/// A routed request is called, or streamed exactly if the client has asked for a stream; one that could
/// not be planned is refused, and nothing is called.
pub proof fn law_streams_are_streamed(
    before: Exchange,
    answer: RouteAnswer,
    keys: ClientProviderKeys,
    after: Exchange,
    action: Action,
)
    requires
        stepped(before, Event::Routed(answer, keys), after, action),
    ensures
        action is Stream ==> before.request@.stream == Some(true),
        action is Call ==> before.request@.stream != Some(true),
        action is Call || action is Stream || action is Refuse,
        action is Refuse <==> after.stage is Ended,
        action is Call || action is Stream ==> after.stage is Calling
            && after.stage->call.request@.messages == before.request@.messages
            && after.stage->call.request@.max_tokens == before.request@.max_tokens
            && after.stage->call.request@.temperature == before.request@.temperature
            && after.stage->call.request@.top_p == before.request@.top_p,
{
    match before.stage {
        Stage::Routing { input_tokens } => {
            let (target, plan) = choose|
                target: Result<Target, ApiError>,
                plan: Result<PlannedCall, ApiError>,
            |
                {
                    &&& #[trigger] routed(before.request@, input_tokens, answer, target)
                    &&& #[trigger] planned(before.request@, keys, target, plan)
                    &&& goes_on(before, after, action, input_tokens, plan)
                };
        },
        _ => {},
    }
}

/// A failed call ends the exchange: the client is told what has failed, and the failure is recorded for
/// the provider that was called and the model that the request was routed to.
pub proof fn law_failed_calls_end_the_exchange(
    before: Exchange,
    e: ConnectorError,
    after: Exchange,
    action: Action,
)
    requires
        stepped(before, Event::Answered(Err(e)), after, action),
    ensures
        before.stage is Calling,
        after.stage is Ended,
        action matches Action::Fail(told, record) && {
            &&& told@ == call_error(e@)
            &&& record.provider == before.stage->call.route.provider_to_call
            &&& record.model@ == before.stage->call.routing_model@
            &&& record.error@ == error_text(e@)
        },
{
}

/// Tokens that could not be counted end the exchange with an internal error and its reason.
pub proof fn law_uncounted_requests_are_refused(
    before: Exchange,
    reason: String,
    after: Exchange,
    action: Action,
)
    requires
        stepped(before, Event::Counted(Err(reason)), after, action),
    ensures
        after.stage is Ended,
        action matches Action::Refuse(x) && x@ == ApiErrorView::InternalError(
            "Token counting failed: "@ + reason@,
        ),
{
}

/// Whatever happens, an exchange stays that of the same request, client and prompt.
pub proof fn law_exchanges_keep_their_request(
    before: Exchange,
    event: Event,
    after: Exchange,
    action: Action,
)
    requires
        stepped(before, event, after, action),
    ensures
        after.request_id@ == before.request_id@,
        after.client_id == before.client_id,
        after.request == before.request,
        after.prompt@ == before.prompt@,
{
}

/// A request with a prompt that is not streamed begins with a lookup of that prompt, for its own client
/// and model; any other begins with the count of its tokens.
pub proof fn law_exchanges_begin_with_a_lookup(after: Exchange, action: Action)
    requires
        begun(after, action),
    ensures
        after.prompt@.len() > 0 && after.request@.stream != Some(true) ==> after.stage is Lookup && (
        action matches Action::LookUp { client, prompt, model } && prompt@ == after.prompt@
            && model@ == after.request@.model && (after.client_id matches Some(id) ==> client@
            == id@) && (after.client_id is None ==> client@ == "anonymous"@)),
        after.prompt@.len() == 0 || after.request@.stream == Some(true) ==> action is CountTokens
            && after.stage is Counting,
{
}

/// What an exchange waits for: a lookup's answer, the count, the router's answer, or the provider's; and
/// nothing once it has ended.
pub proof fn law_each_stage_waits_for_its_own_event(x: Exchange, event: Event)
    ensures
        expects(x, event) ==> {
            &&& event is Cache <==> x.stage is Lookup
            &&& event is Counted <==> x.stage is Counting
            &&& event is Routed <==> x.stage is Routing
            &&& event is Answered <==> x.stage is Calling
        },
        x.stage is Ended ==> !expects(x, event),
        x.stage is Lookup && event is Cache ==> expects(x, event),
        x.stage is Counting && event is Counted ==> expects(x, event),
        x.stage is Calling && event is Answered ==> expects(x, event),
{
}

} // verus!
