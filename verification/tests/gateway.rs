use routerfuel::calls::{ChatCompletionResponse, Choice, ConnectorResult, Usage};
use routerfuel::clock::{unix_now, unix_seconds_at, Clock, Span};
use routerfuel::connectors::{ChatCompletionRequest, ChatMessage, ConnectorError};
use routerfuel::csv::csv_escape;
use routerfuel::embedder::{model_input, pooled_rows, text_input, EMBEDDING_DIMS};
use routerfuel::exchange::{
    admit_at, after_cache, after_counting, after_failure, answer_len, answer_text, baseline_cost,
    client_key_of, complete_at, entry_to_store, last_user_prompt, plan_call, wants_stream,
    CacheAnswer, CompletedCall,
};
use routerfuel::flow::{begin, entry_of, step, Action, Event, Exchange, Stage};
use routerfuel::gateway::{
    any_image, api_error_of, resolve_byok_route, resolve_model, route_question, ApiError,
    ClientProviderKeys, RouteAnswer, RouteQuestion, TaskAnswer, VisionAnswers,
};
use routerfuel::guardrails::{LoopGuard, SpendGuard};
use routerfuel::money::{cents, write_cents, write_signed, write_signed_cents};
use routerfuel::provider::Provider;
use routerfuel::rate_limiter::{RateLimiter, TierConfig};
use routerfuel::semantic_cache::{
    after_embedding, after_exact, after_nearest, cache_key_hash, cache_key_text, prompt_preview,
    NearestRow, SemanticCache, EXACT_SIMILARITY, SIMILARITY_THRESHOLD,
};
use routerfuel::shadow::{
    finish_shadow_at, plan_shadow, shadow_mode_enabled, ShadowAnswer, ShadowBase, ShadowPlan,
};
use routerfuel::telemetry::{
    csv_row, TelemetryData, TelemetryError, TelemetryRecorder, CSV_HEADER,
};
use routerfuel::tokenizer::{
    normalizer_is_sound, padding_is_sound, pre_tokenizer_is_sound, processor_is_sound, sides_agree,
    texts_have_marks, tokenizer_is_sound, truncation_is_sound, EmbedError, TextTokenizer, Tokens,
    UNSOUND_TOKENIZER,
};
use routerfuel::vision::{
    ContentPart, ImageUrl, MessageContent, ModelConfig, PartKind, RoutingDecision,
};
use std::collections::HashMap;
use std::time::{Duration, Instant, SystemTime};

fn message(role: &str, s: &str) -> ChatMessage {
    ChatMessage { role: role.into(), content: MessageContent::Text(s.into()) }
}

fn image() -> ChatMessage {
    ChatMessage {
        role: "user".into(),
        content: MessageContent::Parts(vec![ContentPart {
            part_type: "image_url".into(),
            kind: PartKind::ImageUrl { image_url: ImageUrl { url: "u".into(), detail: None } },
        }]),
    }
}

fn request(model: &str, messages: Vec<ChatMessage>) -> ChatCompletionRequest {
    ChatCompletionRequest {
        model: model.into(),
        messages,
        temperature: None,
        max_tokens: None,
        top_p: None,
        stream: None,
        shadow_model: None,
    }
}

fn keys(headers: &[(&str, &str)]) -> ClientProviderKeys {
    let list: Vec<(String, String)> =
        headers.iter().map(|h| (h.0.to_string(), h.1.to_string())).collect();
    ClientProviderKeys::from_headers(&list)
}

fn model(name: &str, provider: Provider, sees: bool) -> ModelConfig {
    ModelConfig {
        api_id: name.into(),
        display_name: name.into(),
        provider,
        context_window: 1000,
        supports_vision: sees,
        open_weight: true,
        quality_score: 0.5f64.to_bits(),
        cost_per_1m_input: serde_json::Value::Null,
        cost_per_1m_output: serde_json::Value::Null,
    }
}

fn chosen(name: &str, provider: Provider, sees: bool) -> RoutingDecision {
    RoutingDecision { model: model(name, provider, sees), reason: "".into(), score: 0 }
}

fn vision(name: &str) -> VisionAnswers {
    VisionAnswers {
        balanced: Ok(chosen(name, Provider::Gemini, true)),
        by_quality: Err("unused".into()),
        models: vec![],
    }
}

// Errors.

#[test]
fn errors_are_answered_with_status_and_type() {
    let r = ApiError::BadRequest("no".into()).into_reply();
    assert_eq!((r.status, r.message.as_str(), r.error_type), (400, "no", "invalid_request_error"));
    let r = ApiError::RateLimited.into_reply();
    assert_eq!(
        (r.status, r.message.as_str(), r.error_type),
        (429, "Rate limit exceeded", "rate_limit_error")
    );
    let r = ApiError::LoopDetected.into_reply();
    assert_eq!((r.status, r.error_type), (429, "loop_detected_error"));
    assert!(r.message.starts_with(
        "This looks like an agent stuck in a loop: the same prompt has been sent several times in"
    ));
    let r = ApiError::SpendCapExceeded.into_reply();
    assert_eq!((r.status, r.error_type), (429, "spend_cap_error"));
    assert!(r.message.ends_with("to raise the cap if this is expected traffic."));
    let r = ApiError::CircuitOpen.into_reply();
    assert_eq!(
        (r.status, r.message.as_str(), r.error_type),
        (503, "Service temporarily unavailable", "server_error")
    );
    let r = ApiError::ProviderError("p".into()).into_reply();
    assert_eq!((r.status, r.message.as_str(), r.error_type), (502, "p", "provider_error"));
    let r = ApiError::InternalError("i".into()).into_reply();
    assert_eq!((r.status, r.message.as_str(), r.error_type), (500, "i", "internal_error"));
}

#[test]
fn call_errors_become_answers() {
    assert_eq!(api_error_of(&ConnectorError::CircuitOpen).into_reply().status, 503);
    assert_eq!(api_error_of(&ConnectorError::RateLimited).into_reply().status, 429);
    let r = api_error_of(&ConnectorError::Unauthorized).into_reply();
    assert_eq!(r.status, 400);
    assert_eq!(
        r.message,
        "The BYOK API key supplied for this provider was rejected. Check the key and try again."
    );
    let r = api_error_of(&ConnectorError::ServerError { status: 503 }).into_reply();
    assert_eq!((r.status, r.message.as_str()), (502, "Provider returned error status 503"));
    let r = api_error_of(&ConnectorError::Timeout).into_reply();
    assert_eq!((r.status, r.message.as_str()), (502, "Timeout"));
}

// Who pays.

#[test]
fn keys_come_from_headers() {
    let k = keys(&[
        ("x-openai-api-key", "o"),
        ("x-grok-api-key", "g"),
        ("x-llama-api-key", "l"),
        ("x-meta-api-key", "m"),
        ("x-openai-api-key", "second"),
    ]);
    assert_eq!(k.for_provider(Provider::OpenAI), Some("o"));
    assert_eq!(k.for_provider(Provider::XAI), Some("g"));
    assert_eq!(k.for_provider(Provider::Meta), Some("m"));
    assert_eq!(k.for_provider(Provider::Anthropic), None);
}

#[test]
fn direct_key_is_used_first() {
    let k = keys(&[("x-anthropic-api-key", "a"), ("x-openrouter-api-key", "r")]);
    let route = resolve_byok_route(Provider::Anthropic, "opus", &k).unwrap();
    assert_eq!(route.provider_to_call, Provider::Anthropic);
    assert_eq!(route.model_id_to_send, "opus");
    assert_eq!(route.api_key, "a");
    assert!(!route.used_openrouter_fallback);
}

#[test]
fn openrouter_key_is_the_fallback() {
    let k = keys(&[("x-openrouter-api-key", "r")]);
    let route = resolve_byok_route(Provider::Anthropic, "opus-4-8", &k).unwrap();
    assert_eq!(route.provider_to_call, Provider::OpenRouter);
    assert_eq!(route.model_id_to_send, "anthropic/opus-4-8");
    assert_eq!(route.api_key, "r");
    assert!(route.used_openrouter_fallback);
    let route = resolve_byok_route(Provider::OpenRouter, "openrouter/auto", &k).unwrap();
    assert_eq!(route.model_id_to_send, "openrouter/auto");
    assert!(!route.used_openrouter_fallback);
}

#[test]
fn without_a_key_the_request_is_refused() {
    let r = resolve_byok_route(Provider::XAI, "grok", &keys(&[])).unwrap_err().into_reply();
    assert_eq!(r.status, 400);
    assert_eq!(
        r.message,
        "No API key supplied for provider 'xai'. RouterFuel is fully bring-your-own-key: \
         it never bills its own account for provider calls. Supply your key via the \
         X-xai-Api-Key header, or supply an X-Openrouter-Api-Key to route this model \
         through OpenRouter instead."
    );
}

// Routing.

#[test]
fn questions_follow_the_model_field() {
    assert!(matches!(
        route_question(&request("auto", vec![])),
        RouteQuestion::Best { output_tokens: 1024 }
    ));
    let mut r = request("auto", vec![message("user", "x")]);
    r.max_tokens = Some(9);
    assert!(matches!(route_question(&r), RouteQuestion::Best { output_tokens: 9 }));
    assert!(matches!(
        route_question(&request("auto", vec![image()])),
        RouteQuestion::BestVision
    ));
    match route_question(&request("task:code", vec![image()])) {
        RouteQuestion::Task { name, image } => {
            assert_eq!(name, "code");
            assert!(image);
        }
        _ => panic!("wrong question"),
    }
    match route_question(&request("opus", vec![])) {
        RouteQuestion::Pinned { model, image } => {
            assert_eq!(model, "opus");
            assert!(!image);
        }
        _ => panic!("wrong question"),
    }
    assert!(any_image(&vec![message("user", "x"), image()]));
}

#[test]
fn answers_of_the_router_are_followed() {
    let r = request("auto", vec![]);
    let t = resolve_model(&r, 1, RouteAnswer::Best(Ok(chosen("m", Provider::Meta, false)))).unwrap();
    assert_eq!((t.provider, t.model.as_str()), (Provider::Meta, "m"));
    let e = resolve_model(&r, 1, RouteAnswer::Best(Err("empty".into()))).unwrap_err().into_reply();
    assert_eq!((e.status, e.message.as_str()), (502, "No available providers: empty"));

    let r = request("auto", vec![image()]);
    let t = resolve_model(&r, 1, RouteAnswer::BestVision(vision("v"))).unwrap();
    assert_eq!((t.provider, t.model.as_str()), (Provider::Gemini, "v"));
    let blind = VisionAnswers {
        balanced: Err("empty".into()),
        by_quality: Err("unused".into()),
        models: vec![],
    };
    let e = resolve_model(&r, 1, RouteAnswer::BestVision(blind)).unwrap_err().into_reply();
    assert_eq!(e.message, "No vision-capable provider available: empty");
}

#[test]
fn tasks_with_images_go_to_models_that_see() {
    let r = request("task:code", vec![image()]);
    let known = |sees| TaskAnswer::Known(Ok(chosen("t", Provider::OpenAI, sees)));
    let t = resolve_model(&r, 1, RouteAnswer::Task { answer: known(false), vision: vision("v") })
        .unwrap();
    assert_eq!(t.model, "v");
    let t = resolve_model(&r, 1, RouteAnswer::Task { answer: known(true), vision: vision("v") })
        .unwrap();
    assert_eq!(t.model, "t");
    let a = RouteAnswer::Task { answer: TaskAnswer::Unknown("no task".into()), vision: vision("v") };
    let e = resolve_model(&r, 1, a).unwrap_err().into_reply();
    assert_eq!((e.status, e.message.as_str()), (400, "no task"));
    let a = RouteAnswer::Task {
        answer: TaskAnswer::Known(Err("gone".into())),
        vision: vision("v"),
    };
    let e = resolve_model(&r, 1, a).unwrap_err().into_reply();
    assert_eq!((e.status, e.message.as_str()), (502, "Task routing failed: gone"));
}

#[test]
fn pinned_models_that_cannot_see_are_refused_images() {
    let pinned = |sees| RouteAnswer::Pinned { provider: Ok(Provider::DeepSeek), supports_vision: sees };
    let r = request("deepseek-v4-flash", vec![image()]);
    let e = resolve_model(&r, 1, pinned(Some(false))).unwrap_err().into_reply();
    assert_eq!(e.status, 400);
    assert_eq!(
        e.message,
        "Model 'deepseek-v4-flash' does not support image input. Use \"model\": \"auto\" to let \
         RouterFuel pick a vision-capable model, or choose one directly (see GET /v1/models \
         for supports_vision)."
    );
    assert_eq!(resolve_model(&r, 1, pinned(None)).unwrap().model, "deepseek-v4-flash");
    let r = request("deepseek-v4-flash", vec![]);
    assert_eq!(resolve_model(&r, 1, pinned(Some(false))).unwrap().provider, Provider::DeepSeek);
    let a = RouteAnswer::Pinned { provider: Err("x".into()), supports_vision: None };
    assert_eq!(
        resolve_model(&r, 1, a).unwrap_err().into_reply().message,
        "No available providers"
    );
}

#[test]
fn calls_are_planned() {
    let mut r = request("opus", vec![message("user", "hi")]);
    r.max_tokens = Some(3);
    let a = || RouteAnswer::Pinned { provider: Ok(Provider::Anthropic), supports_vision: None };
    let p = plan_call(&r, 1, a(), &keys(&[("x-openrouter-api-key", "k")])).unwrap();
    assert_eq!(p.routing_model, "opus");
    assert_eq!(p.request.model, "anthropic/opus");
    assert_eq!(p.request.max_tokens, Some(3));
    assert_eq!(p.route.api_key, "k");
    assert_eq!(plan_call(&r, 1, a(), &keys(&[])).unwrap_err().into_reply().status, 400);
    let (e, record) = after_failure(&p, &ConnectorError::Timeout);
    assert_eq!(e.into_reply().status, 502);
    assert_eq!(record.provider, Provider::OpenRouter);
    assert_eq!(record.model, "opus");
    assert_eq!(record.error, "Timeout");
}

// Admission.

#[test]
fn guards_are_asked_in_order() {
    let mut rl = RateLimiter::new();
    let mut spend = SpendGuard::with_config(cents(10), Span::from_secs(100));
    let mut loops = LoopGuard::with_config(2, Span::from_secs(100));
    let hello = vec![message("user", "hello"), message("assistant", "x")];
    assert_eq!(admit_at(&mut rl, &spend, &mut loops, "c", &hello, 0, 0).unwrap(), "hello");
    let e = admit_at(&mut rl, &spend, &mut loops, "c", &hello, 0, 0).unwrap_err();
    assert!(matches!(e, ApiError::LoopDetected));
    spend.record_spend_at("c", cents(10), 0);
    let e = admit_at(&mut rl, &spend, &mut loops, "c", &hello, 0, 0).unwrap_err();
    assert!(matches!(e, ApiError::SpendCapExceeded));
    let empty = vec![message("system", "hello")];
    for _ in 0..3 {
        assert_eq!(admit_at(&mut rl, &spend, &mut loops, "d", &empty, 0, 0).unwrap(), "");
    }
    rl.register("e", TierConfig { name: "tiny", capacity: 1 });
    let mut refused = 0;
    for _ in 0..50 {
        let r = admit_at(&mut rl, &spend, &mut loops, "e", &empty, 0, 0);
        if matches!(r, Err(ApiError::RateLimited)) {
            refused += 1;
        }
    }
    assert!(refused > 0);
}

#[test]
fn prompts_and_clients() {
    assert_eq!(
        last_user_prompt(&vec![message("user", "a"), message("user", "b"), message("tool", "c")]),
        "b"
    );
    assert_eq!(last_user_prompt(&vec![]), "");
    assert_eq!(client_key_of(&None), "anonymous");
    assert_eq!(client_key_of(&Some("id".into())), "id");
    let mut r = request("m", vec![]);
    assert!(!wants_stream(&r));
    r.stream = Some(true);
    assert!(wants_stream(&r));
    r.stream = Some(false);
    assert!(!wants_stream(&r));
}

// The course of an exchange.

fn guards() -> (RateLimiter, SpendGuard, LoopGuard) {
    (
        RateLimiter::new(),
        SpendGuard::with_config(cents(10), Span::from_secs(100)),
        LoopGuard::with_config(2, Span::from_secs(100)),
    )
}

fn start(request: ChatCompletionRequest) -> (Exchange, Action) {
    let (mut rl, spend, mut loops) = guards();
    begin(&mut rl, &spend, &mut loops, "r1".into(), Some("c".into()), request, 0, 0)
}

#[test]
fn an_exchange_runs_to_its_settlement() {
    let (x, a) = start(request("opus", vec![message("user", "hi")]));
    match a {
        Action::LookUp { client, prompt, model } => {
            assert_eq!((client.as_str(), prompt.as_str(), model.as_str()), ("c", "hi", "opus"));
        }
        _ => panic!("no lookup"),
    }
    let (x, a) = step(x, Event::Cache(CacheAnswer::Miss));
    assert!(matches!(a, Action::CountTokens));
    let (x, a) = step(x, Event::Counted(Ok(11)));
    assert!(matches!(a, Action::AskRouter(RouteQuestion::Pinned { .. })));
    let answer = RouteAnswer::Pinned { provider: Ok(Provider::Anthropic), supports_vision: None };
    let (x, a) = step(x, Event::Routed(answer, keys(&[("x-openrouter-api-key", "k")])));
    assert!(matches!(a, Action::Call));
    let (x, a) = step(x, Event::Answered(Ok(result("fine"))));
    assert!(matches!(x.stage, Stage::Ended));
    match a {
        Action::Settle(done) => {
            assert_eq!(done.request_id, "r1");
            assert_eq!(done.client_id, Some("c".to_string()));
            assert_eq!(done.input_tokens, 11);
            assert_eq!(done.routing_model, "opus");
            assert_eq!(done.provider, Provider::OpenRouter);
            assert_eq!(done.result.model_id, "m-real");
        }
        _ => panic!("not settled"),
    }
}

#[test]
fn an_exchange_can_end_at_every_step() {
    let hi = || request("opus", vec![message("user", "hi")]);
    let (x, _) = start(hi());
    let (_, a) = step(x, Event::Cache(CacheAnswer::Hit(Ok(response("cached")))));
    assert!(matches!(a, Action::Serve(r) if r.id == "id"));
    let (x, _) = start(hi());
    let (_, a) = step(x, Event::Cache(CacheAnswer::Hit(Err("bad".into()))));
    assert!(matches!(a, Action::Refuse(ApiError::InternalError(_))));

    let (x, a) = start(request("opus", vec![message("system", "hi")]));
    assert!(matches!(a, Action::CountTokens));
    let (_, a) = step(x, Event::Counted(Err("bad".into())));
    assert!(matches!(a, Action::Refuse(ApiError::InternalError(_))));

    let (x, _) = start(request("opus", vec![]));
    let (x, _) = step(x, Event::Counted(Ok(1)));
    let answer = RouteAnswer::Pinned { provider: Ok(Provider::Meta), supports_vision: None };
    let (_, a) = step(x, Event::Routed(answer, keys(&[])));
    assert!(matches!(a, Action::Refuse(ApiError::BadRequest(_))));

    let (x, _) = start(request("opus", vec![]));
    let (x, _) = step(x, Event::Counted(Ok(1)));
    let answer = RouteAnswer::Pinned { provider: Ok(Provider::Meta), supports_vision: None };
    let (x, _) = step(x, Event::Routed(answer, keys(&[("x-meta-api-key", "k")])));
    let (_, a) = step(x, Event::Answered(Err(ConnectorError::RateLimited)));
    match a {
        Action::Fail(e, record) => {
            assert_eq!(e.into_reply().status, 429);
            assert_eq!(record.error, "Rate limited");
        }
        _ => panic!("no failure"),
    }
}

#[test]
fn streams_are_counted_and_routed() {
    let mut r = request("auto", vec![message("user", "hi")]);
    r.stream = Some(true);
    let (x, a) = start(r);
    assert!(matches!(a, Action::CountTokens));
    let (x, a) = step(x, Event::Counted(Ok(17)));
    assert!(matches!(x.stage, Stage::Routing { input_tokens: 17 }));
    assert!(matches!(a, Action::AskRouter(RouteQuestion::Best { output_tokens: 1024 })));
    let answer = RouteAnswer::Best(Ok(chosen("m", Provider::Meta, false)));
    let (x, a) = step(x, Event::Routed(answer, keys(&[("x-meta-api-key", "k")])));
    assert!(matches!(a, Action::Stream));
    assert!(matches!(x.stage, Stage::Calling { .. }));
}

#[test]
fn answers_are_stored_for_the_same_request() {
    let cache = SemanticCache::new(true);
    let hi = || request("auto", vec![message("user", "hi")]);
    let (first, _) = start(hi());
    let entry = entry_of(&cache, &first, Some("json".into())).unwrap();
    assert_eq!(entry.client_id, "c");
    assert_eq!(entry.prompt, "hi");
    assert_eq!(entry.model_used, "auto");
    assert_eq!(entry.cached_response, "json");
    match start(hi()).1 {
        Action::LookUp { client, prompt, model } => {
            let q = cache.lookup(&client, &prompt, &model).unwrap();
            assert_eq!((q.prompt_hash, q.client_id), (entry.prompt_hash, entry.client_id));
        }
        _ => panic!("no lookup"),
    }
    assert!(entry_of(&cache, &first, None).is_none());
    assert!(entry_of(&SemanticCache::new(false), &first, Some("json".into())).is_none());
    let (silent, _) = start(request("auto", vec![]));
    assert!(entry_of(&cache, &silent, Some("json".into())).is_none());
}

#[test]
fn refused_requests_do_not_begin() {
    let (mut rl, mut spend, mut loops) = guards();
    spend.record_spend_at("anonymous", cents(10), 0);
    let (x, a) = begin(
        &mut rl,
        &spend,
        &mut loops,
        "r1".into(),
        None,
        request("m", vec![message("user", "hi")]),
        0,
        0,
    );
    assert!(matches!(x.stage, Stage::Ended));
    assert!(matches!(a, Action::Refuse(ApiError::SpendCapExceeded)));
}

// Settling.

fn response(text: &str) -> ChatCompletionResponse {
    ChatCompletionResponse {
        id: "id".into(),
        object: "chat.completion".into(),
        created: 1,
        model: "m-real".into(),
        choices: vec![Choice {
            index: 0,
            message: message("assistant", text),
            finish_reason: "stop".into(),
        }],
        usage: Usage { prompt_tokens: 10, completion_tokens: 20, total_tokens: 30 },
    }
}

fn result(text: &str) -> ConnectorResult {
    ConnectorResult {
        provider: Provider::OpenAI,
        model_id: "m-real".into(),
        response: response(text),
        latency_ms: 12,
        input_tokens: 10,
        output_tokens: 20,
    }
}

fn completed() -> CompletedCall {
    CompletedCall {
        request_id: "r1".into(),
        client_id: Some("c".into()),
        input_tokens: 11,
        routing_model: "m".into(),
        provider: Provider::OpenRouter,
        result: result("grüße"),
    }
}

#[test]
fn completed_calls_are_billed_and_recorded() {
    let mut spend = SpendGuard::with_config(cents(1), Span::from_secs(100));
    let done =
        complete_at(&mut spend, &completed(), Ok(1_000_000), true, &Some("s".into()), 99, 0).unwrap();
    assert!(!spend.check_at("c", 0));
    assert_eq!(done.cost, 1_000_000);
    assert_eq!(done.baseline_cost, 11 * 500 + 20 * 3000);
    assert_eq!(baseline_cost(1_000_000, 1_000_000), cents(3_500) as u64);
    let t = &done.telemetry;
    assert_eq!(t.request_id, "r1");
    assert_eq!(t.timestamp, 99);
    assert_eq!(t.chosen_model, "m-real");
    assert_eq!(t.cost_delta, 65_500 - 1_000_000);
    assert_eq!(t.latency_ms, 12);
    assert_eq!(t.priority, "balanced");
    assert_eq!(t.provider, "openrouter");
    assert!(t.success);
    assert_eq!(t.tokens_used, 31);
    assert_eq!(t.client_id, "c");
    let (shadow, base) = done.shadow.unwrap();
    assert_eq!(shadow, "s");
    assert_eq!(base.primary_model, "m-real");
    assert_eq!(base.primary_provider, Provider::OpenRouter);
    assert_eq!(base.primary_output_chars, 7);
    assert_eq!(answer_text(&completed().result.response), "grüße");
    assert_eq!(answer_len(&completed().result.response), 7);
}

#[test]
fn unknown_price_is_an_error_and_bills_nothing() {
    let mut spend = SpendGuard::with_config(1, Span::from_secs(100));
    let r = complete_at(&mut spend, &completed(), Err("?".into()), true, &None, 0, 0);
    let e = r.unwrap_err().into_reply();
    assert_eq!((e.status, e.message.as_str()), (500, "Pricing lookup failed"));
    assert!(spend.check_at("c", 0));
    let done = complete_at(&mut spend, &completed(), Ok(0), false, &Some("s".into()), 0, 0);
    assert!(done.unwrap().shadow.is_none());
}

#[test]
fn cache_and_counting_outcomes() {
    assert!(after_cache(CacheAnswer::Miss).unwrap().is_none());
    assert_eq!(after_cache(CacheAnswer::Hit(Ok(response("x")))).unwrap().unwrap().id, "id");
    let e = after_cache(CacheAnswer::Hit(Err("bad".into()))).unwrap_err().into_reply();
    assert_eq!((e.status, e.message.as_str()), (500, "Failed to parse cache: bad"));
    assert_eq!(after_counting(Ok(5)).unwrap(), 5);
    let e = after_counting(Err("bad".into())).unwrap_err().into_reply();
    assert_eq!((e.status, e.message.as_str()), (500, "Token counting failed: bad"));
    let cache = SemanticCache::new(true);
    assert!(entry_to_store(&cache, "c", "", Some("{}".into()), "m").is_none());
    assert!(entry_to_store(&cache, "c", "p", None, "m").is_none());
    let e = entry_to_store(&cache, "c", "p", Some("{}".into()), "m").unwrap();
    assert_eq!(e.prompt_hash, cache_key_hash("c", "m", "p"));
}

// Comparisons.

fn base() -> ShadowBase {
    ShadowBase {
        request_id: "r1".into(),
        client_id: None,
        primary_model: "m".into(),
        primary_provider: Provider::OpenAI,
        primary_cost: 7,
        primary_latency_ms: 8,
        primary_output_chars: 9,
    }
}

fn open_guard() -> SpendGuard {
    SpendGuard::with_config(100, Span::from_secs(100))
}

#[test]
fn comparison_is_skipped_at_the_ceiling() {
    let r = request("m", vec![]);
    let k = keys(&[("x-meta-api-key", "k")]);
    let mut guard = open_guard();
    guard.record_spend_at("anonymous", 99, 0);
    let plan = plan_shadow(&guard, base(), "s".into(), Ok(Provider::Meta), &r, &k, 0);
    assert!(matches!(plan, ShadowPlan::Call { .. }));
    guard.record_spend_at("anonymous", 1, 0);
    match plan_shadow(&guard, base(), "s".into(), Ok(Provider::Meta), &r, &k, 0) {
        ShadowPlan::Skip(c) => {
            assert_eq!(c.shadow_provider, "meta");
            assert_eq!(c.shadow_error, Some("spend cap reached for this client".to_string()));
        }
        _ => panic!("a call"),
    }
}

#[test]
fn comparisons_can_be_switched_off() {
    assert!(shadow_mode_enabled(None));
    assert!(shadow_mode_enabled(Some("true")));
    assert!(shadow_mode_enabled(Some("")));
    assert!(!shadow_mode_enabled(Some("false")));
    assert!(!shadow_mode_enabled(Some("0")));
}

#[test]
fn comparison_is_skipped_without_model_or_key() {
    let r = request("m", vec![]);
    match plan_shadow(&open_guard(), base(), "s".into(), Err("?".into()), &r, &keys(&[]), 0) {
        ShadowPlan::Skip(c) => {
            assert_eq!(c.shadow_provider, "unknown");
            assert_eq!(c.shadow_error, Some("unknown shadow model: ?".to_string()));
            assert_eq!(c.primary_provider, "openai");
            assert_eq!(c.primary_cost, 7);
        }
        _ => panic!("a call"),
    }
    match plan_shadow(&open_guard(), base(), "s".into(), Ok(Provider::Meta), &r, &keys(&[]), 0) {
        ShadowPlan::Skip(c) => {
            assert_eq!(c.shadow_provider, "meta");
            assert_eq!(
                c.shadow_error,
                Some("no BYOK key available for shadow provider".to_string())
            );
            assert_eq!(c.shadow_cost, None);
        }
        _ => panic!("a call"),
    }
}

#[test]
fn comparison_is_called_once_and_not_streamed() {
    let mut r = request("m", vec![message("user", "hi")]);
    r.stream = Some(true);
    r.shadow_model = Some("s".into());
    let k = keys(&[("x-openrouter-api-key", "k")]);
    match plan_shadow(&open_guard(), base(), "s".into(), Ok(Provider::Meta), &r, &k, 0) {
        ShadowPlan::Call { model, route, request, .. } => {
            assert_eq!(model, "s");
            assert_eq!(route.provider_to_call, Provider::OpenRouter);
            assert_eq!(request.model, "meta-llama/s");
            assert_eq!(request.stream, Some(false));
            assert_eq!(request.shadow_model, None);
            assert_eq!(request.messages.len(), 1);
        }
        _ => panic!("skipped"),
    }
}

#[test]
fn comparison_counts_against_the_ceiling() {
    let mut spend = SpendGuard::with_config(100, Span::from_secs(100));
    let failed = finish_shadow_at(
        &mut spend,
        base(),
        "s".into(),
        Provider::Meta,
        Err(ConnectorError::Timeout),
        0,
    );
    assert_eq!(failed.shadow_error, Some("Timeout".to_string()));
    assert!(spend.check_at("anonymous", 0));
    let answer = ShadowAnswer { result: result("four"), cost: Some(100), latency_ms: 5 };
    let c = finish_shadow_at(&mut spend, base(), "s".into(), Provider::Meta, Ok(answer), 0);
    assert_eq!(c.shadow_cost, Some(100));
    assert_eq!(c.shadow_latency_ms, Some(5));
    assert_eq!(c.shadow_output_chars, Some(4));
    assert_eq!(c.shadow_error, None);
    assert!(!spend.check_at("anonymous", 0));
    let answer = ShadowAnswer { result: result("four"), cost: None, latency_ms: 5 };
    let c = finish_shadow_at(&mut spend, base(), "s".into(), Provider::Meta, Ok(answer), 0);
    assert_eq!(c.shadow_cost, Some(10 * 500 + 20 * 3000));
}

// The cache.

#[test]
fn embedding_dims_matches_migration_005() {
    assert_eq!(EMBEDDING_DIMS, 384);
}

#[test]
fn cache_key_differs_by_client() {
    let a = cache_key_hash("client-a", "sonnet-5", "hello");
    let b = cache_key_hash("client-b", "sonnet-5", "hello");
    assert_ne!(a, b, "different clients must not share a cache key for the same prompt+model");
}

#[test]
fn cache_key_matches_for_same_client_prompt_model() {
    let a = cache_key_hash("client-a", "sonnet-5", "hello");
    let b = cache_key_hash("client-a", "sonnet-5", "hello");
    assert_eq!(a, b);
}

#[test]
fn cache_key_text_is_separated_by_nul() {
    assert_eq!(cache_key_text("ab", "c", "d"), "ab\0c\0d");
    assert_ne!(cache_key_text("a", "bc", "d"), cache_key_text("ab", "c", "d"));
}

#[test]
fn lookups_ask_for_the_clients_entries() {
    let cache = SemanticCache::new(true);
    let q = cache.lookup("c", "p", "m").unwrap();
    assert_eq!(q.prompt_hash, cache_key_hash("c", "m", "p"));
    assert_eq!(q.client_id, "c");
    let f = after_exact(q, Some(("answer".into(), "m".into()))).unwrap();
    assert_eq!(f.hit.cached_response, "answer");
    assert_eq!(f64::from_bits(f.hit.similarity), 1.0);
    assert_eq!(f.hit.similarity, EXACT_SIMILARITY);
    assert_eq!(f.touch.client_id, "c");
    let q = cache.lookup("c", "p", "m").unwrap();
    assert!(after_exact(q, None).is_none());
    assert!(after_embedding("c", "m", false).is_none());
    let q = after_embedding("c", "m", true).unwrap();
    assert_eq!((q.client_id.as_str(), q.model.as_str()), ("c", "m"));
    assert_eq!(f64::from_bits(SIMILARITY_THRESHOLD), 0.96);
    assert_eq!(q.threshold, SIMILARITY_THRESHOLD);
    let row = NearestRow {
        cached_response: "near".into(),
        model_used: "m".into(),
        similarity: 0.97f64.to_bits(),
        prompt_hash: "h".into(),
    };
    let f = after_nearest(q, Some(row)).unwrap();
    assert_eq!(f.hit.cached_response, "near");
    assert_eq!((f.touch.prompt_hash.as_str(), f.touch.client_id.as_str()), ("h", "c"));
    let q = after_embedding("c", "m", true).unwrap();
    assert!(after_nearest(q, None).is_none());
}

#[test]
fn cache_out_of_use_misses() {
    let mut cache = SemanticCache::new(true);
    cache.disable();
    assert!(cache.lookup("c", "p", "m").is_none());
    assert!(cache.store("c".into(), "p".into(), "r".into(), "m".into()).is_none());
    assert!(SemanticCache::new(false).lookup("c", "p", "m").is_none());
}

#[test]
fn previews_are_cut_between_characters() {
    let long = "ü".repeat(300);
    assert_eq!(prompt_preview(&long), "ü".repeat(200));
    assert_eq!(prompt_preview("short"), "short");
    let cache = SemanticCache::new(true);
    let e = cache.store("c".into(), long.clone(), "r".into(), "m".into()).unwrap();
    assert_eq!(e.prompt_preview, "ü".repeat(200));
    assert_eq!(e.prompt, long);
}

// The embedder.

#[test]
fn model_input_is_widened() {
    let tokens = Tokens {
        ids: vec![1, u32::MAX],
        attention_mask: vec![1, 0],
        type_ids: vec![0, 1],
    };
    let m = model_input(&tokens).unwrap();
    assert_eq!(m.ids, vec![1, 4_294_967_295]);
    assert_eq!(m.attention_mask, vec![1, 0]);
    assert_eq!(m.type_ids, vec![0, 1]);
    let none = Tokens { ids: vec![], attention_mask: vec![], type_ids: vec![] };
    assert!(model_input(&none).is_none());
    assert_eq!(pooled_rows(&vec![1, 0, 1], 384), vec![0, 768]);
}

#[test]
fn texts_are_tokenized() {
    let mut vocab: HashMap<String, u32> = HashMap::new();
    vocab.insert("[UNK]".to_string(), 0);
    vocab.insert("hello world".to_string(), 7);
    let model = tokenizers::models::wordlevel::WordLevel::builder()
        .vocab(vocab.into_iter().collect())
        .unk_token("[UNK]".to_string())
        .build()
        .unwrap();
    let tokenizer = TextTokenizer::new(tokenizers::Tokenizer::new(model));
    let m = text_input(&tokenizer, "hello world").unwrap().unwrap();
    assert_eq!(m.ids, vec![7]);
    assert_eq!(m.attention_mask, vec![1]);
    assert_eq!(m.type_ids, vec![0]);
    assert!(text_input(&tokenizer, "").unwrap().is_none());
}

#[test]
fn sound_settings_are_told_from_unsound_ones() {
    assert!(truncation_is_sound(None, Some(5)));
    assert!(truncation_is_sound(Some((128, 0)), Some(2)));
    assert!(truncation_is_sound(Some((2, 9)), Some(2)));
    assert!(!truncation_is_sound(Some((128, 126)), Some(2)));
    assert!(truncation_is_sound(Some((128, 126)), None));
    assert!(!truncation_is_sound(Some((1, 0)), Some(2)));
    assert!(padding_is_sound(None));
    assert!(padding_is_sound(Some((Some(128), Some(8)))));
    assert!(padding_is_sound(Some((Some(5_000_000_000), None))));
    assert!(!padding_is_sound(Some((None, Some(usize::MAX)))));
    let json = |s: &str| serde_json::from_str::<serde_json::Value>(s).unwrap();
    assert!(processor_is_sound(&json("null")));
    assert!(processor_is_sound(&json(r#"{"type":"BertProcessing"}"#)));
    let template = r#"{"type":"TemplateProcessing","single":[
        {"SpecialToken":{"id":"[CLS]","type_id":0}},{"Sequence":{"id":"A","type_id":0}}],
        "pair":[],"special_tokens":{"[CLS]":{"id":"[CLS]","ids":[1],"tokens":["[CLS]"]}}}"#;
    assert!(processor_is_sound(&json(template)));
    assert!(!processor_is_sound(&json(&template.replace("\"A\"", "\"B\""))));
    assert!(!processor_is_sound(&json(&template.replace("\"[CLS]\":", "\"[SEP]\":"))));
    let list = |a: &str, b: &str| format!(r#"{{"type":"Sequence","processors":[{a},{b}]}}"#);
    let bytes = r#"{"type":"ByteLevel"}"#;
    assert!(processor_is_sound(&json(&list(bytes, template))));
    assert!(processor_is_sound(&json(&list(template, bytes))));
    assert!(processor_is_sound(&json(&list(bytes, &list(template, bytes)))));
    assert!(!processor_is_sound(&json(&list(template, template))));
    assert!(!processor_is_sound(&json(&list(template, &list(bytes, template)))));
    assert!(!processor_is_sound(&json(r#"{"type":"Sequence"}"#)));
    assert!(pre_tokenizer_is_sound(&json(r#"{"type":"Whitespace"}"#)));
    assert!(pre_tokenizer_is_sound(&json(r#"{"type":"FixedLength","length":5}"#)));
    assert!(!pre_tokenizer_is_sound(&json(r#"{"type":"FixedLength","length":0}"#)));
    let list = |part: &str| format!(r#"{{"type":"Sequence","pretokenizers":[{part}]}}"#);
    let short = r#"{"type":"FixedLength","length":0}"#;
    assert!(pre_tokenizer_is_sound(&json(&list(&list(r#"{"type":"Digits"}"#)))));
    assert!(!pre_tokenizer_is_sound(&json(&list(&list(short)))));
    assert!(pre_tokenizer_is_sound(&json(&list(""))));
}

#[test]
fn normalizers_that_change_texts_in_place_are_sound() {
    let json = |s: &str| serde_json::from_str::<serde_json::Value>(s).unwrap();
    assert!(normalizer_is_sound(&json("null")));
    assert!(normalizer_is_sound(&json(r#"{"type":"BertNormalizer"}"#)));
    assert!(normalizer_is_sound(&json(
        r#"{"type":"Sequence","normalizers":[{"type":"NFD"},{"type":"Sequence","normalizers":[
            {"type":"StripAccents"},{"type":"Lowercase"}]}]}"#
    )));
    assert!(normalizer_is_sound(&json(r#"{"type":"Prepend","prepend":"_"}"#)));
    assert!(!normalizer_is_sound(&json(r#"{"type":"Prepend","prepend":""}"#)));
    assert!(!normalizer_is_sound(&json(
        r#"{"type":"Sequence","normalizers":[
            {"type":"Replace","pattern":{"Regex":"^"},"content":"_"},{"type":"Lowercase"}]}"#
    )));
}

#[test]
fn added_tokens_are_judged_by_text_and_sides() {
    assert!(texts_have_marks(&vec![]));
    assert!(texts_have_marks(&vec!["[PAD]".to_string(), " ~ ".to_string()]));
    assert!(!texts_have_marks(&vec!["[PAD]".to_string(), " \u{301}".to_string()]));
    assert!(sides_agree(&vec![]));
    assert!(sides_agree(&vec![(true, false), (false, false), (true, false)]));
    assert!(sides_agree(&vec![(false, true), (false, true)]));
    assert!(!sides_agree(&vec![(false, true), (true, false)]));
    assert!(!sides_agree(&vec![(true, true)]));
}

fn word_tokenizer() -> tokenizers::Tokenizer {
    let mut vocab: HashMap<String, u32> = HashMap::new();
    for (i, word) in ["[UNK]", "[CLS]", "[SEP]", "a", "b", "c"].iter().enumerate() {
        vocab.insert(word.to_string(), i as u32);
    }
    let model = tokenizers::models::wordlevel::WordLevel::builder()
        .vocab(vocab.into_iter().collect())
        .unk_token("[UNK]".to_string())
        .build()
        .unwrap();
    let mut t = tokenizers::Tokenizer::new(model);
    t.with_pre_tokenizer(Some(tokenizers::pre_tokenizers::whitespace::Whitespace {}));
    let template = tokenizers::processors::template::TemplateProcessing::builder()
        .try_single("[CLS] $A [SEP]")
        .unwrap()
        .special_tokens(vec![("[CLS]", 1), ("[SEP]", 2)])
        .build()
        .unwrap();
    t.with_post_processor(Some(template));
    t
}

#[test]
fn tokenizers_are_judged_by_their_settings() {
    let mut t = word_tokenizer();
    assert!(tokenizer_is_sound(&t));
    let m = text_input(&TextTokenizer::new(t.clone()), "a b c").unwrap().unwrap();
    assert_eq!(m.ids, vec![1, 3, 4, 5, 2]);
    let cut = |max_length, stride| tokenizers::TruncationParams {
        max_length,
        stride,
        ..Default::default()
    };
    t.with_truncation(Some(cut(4, 1))).unwrap();
    assert!(tokenizer_is_sound(&t));
    let m = text_input(&TextTokenizer::new(t.clone()), "a b c").unwrap().unwrap();
    assert_eq!(m.ids, vec![1, 3, 4, 2]);
    t.with_truncation(Some(cut(4, 2))).unwrap();
    assert!(!tokenizer_is_sound(&t));
    let ready = TextTokenizer::new(t.clone());
    assert!(ready.is_sound());
    assert_eq!(ready.inner().get_truncation().map(|p| (p.max_length, p.stride)), Some((4, 0)));
    assert_eq!(text_input(&ready, "a b").unwrap().unwrap().ids, vec![1, 3, 4, 2]);
    assert_eq!(text_input(&ready, "a b c").unwrap().unwrap().ids, vec![1, 3, 4, 2]);
    t.with_truncation(None).unwrap();
    t.with_padding(Some(tokenizers::PaddingParams {
        strategy: tokenizers::PaddingStrategy::Fixed(6),
        ..Default::default()
    }));
    let m = text_input(&TextTokenizer::new(t.clone()), "a b c").unwrap().unwrap();
    assert_eq!(m.attention_mask, vec![1, 1, 1, 1, 1, 0]);
    t.with_pre_tokenizer(Some(tokenizers::pre_tokenizers::fixed_length::FixedLength { length: 0 }));
    assert!(!tokenizer_is_sound(&t));
    let unsound = TextTokenizer::new(t.clone());
    assert!(!unsound.is_sound());
    let e = text_input(&unsound, "a b c").unwrap_err();
    assert!(matches!(e, EmbedError::Unsound));
    assert_eq!(e.message(), UNSOUND_TOKENIZER);
    assert_eq!(unsound.inner().encode("", true).unwrap().get_ids(), &[1, 2, 0, 0, 0, 0]);
}

#[test]
fn normalizers_count_for_tokenizers() {
    let mut t = word_tokenizer();
    t.with_normalizer(Some(tokenizers::normalizers::BertNormalizer::default()));
    let ready = TextTokenizer::new(t.clone());
    assert!(ready.is_sound());
    let m = text_input(&ready, "\u{c0} B\u{7}  C \u{4e2d}").unwrap().unwrap();
    assert_eq!(m.ids, vec![1, 3, 4, 5, 0, 2]);
    t.with_normalizer(Some(tokenizers::normalizers::Replace::new("a", "b").unwrap()));
    assert!(!tokenizer_is_sound(&t));
}

#[test]
fn added_tokens_are_found_by_the_present_normalizer() {
    let mut t = word_tokenizer();
    t.add_tokens(&[tokenizers::AddedToken::from("B!", false)]);
    t.with_normalizer(Some(tokenizers::normalizers::utils::Lowercase));
    assert!(tokenizer_is_sound(&t));
    assert_eq!(t.encode("a b!", true).unwrap().get_ids().len(), 5);
    let m = text_input(&TextTokenizer::new(t.clone()), "a b!").unwrap().unwrap();
    assert_eq!(m.ids, vec![1, 3, 6, 2]);
    t.add_tokens(&[tokenizers::AddedToken::from(" \u{301}", false)]);
    assert!(!tokenizer_is_sound(&t));
}

#[test]
fn added_tokens_that_take_in_spaces_count_for_tokenizers() {
    let mut t = word_tokenizer();
    t.add_tokens(&[tokenizers::AddedToken::from("<m>", true).lstrip(true)]);
    assert!(tokenizer_is_sound(&t));
    t.add_tokens(&[tokenizers::AddedToken::from("<n>", true).rstrip(true)]);
    assert!(!tokenizer_is_sound(&t));
}

#[test]
fn a_tokenizer_that_fails_says_why() {
    let mut vocab: HashMap<String, u32> = HashMap::new();
    vocab.insert("a".to_string(), 0);
    let model = tokenizers::models::wordlevel::WordLevel::builder()
        .vocab(vocab.into_iter().collect())
        .unk_token("[UNK]".to_string())
        .build()
        .unwrap();
    let t = TextTokenizer::new(tokenizers::Tokenizer::new(model));
    let e = text_input(&t, "b").unwrap_err();
    assert!(matches!(e, EmbedError::Encode(_)));
    assert!(e.message().starts_with("tokenizer encode failed: "));
    assert!(e.message().len() > "tokenizer encode failed: ".len());
}

// Telemetry.

#[test]
fn test_telemetry_recorder_creation() {
    let recorder = TelemetryRecorder::new("/tmp/telemetry-test", 100, Ok(()));
    assert!(recorder.is_ok());
}

#[test]
fn test_telemetry_recording() {
    let mut recorder = TelemetryRecorder::new("/tmp/telemetry-test-2", 100, Ok(())).unwrap();

    let data = TelemetryData::new(
        "test-req-1".to_string(),
        "gpt-4o".to_string(),
        cents(100) as u64,
        cents(200) as u64,
        "client-1".to_string(),
    );

    assert_eq!(data.cost_delta, cents(100) as i64);
    assert!(!recorder.record(data));
    assert_eq!(recorder.pending().len(), 1);
}

fn record(model: &str, tier: &str, at: i64, cost: u64, latency: u64, success: bool) -> TelemetryData {
    let mut d =
        TelemetryData::new_at("r".into(), model.into(), cost, 10, "c".into(), at);
    d.user_tier = tier.into();
    d.latency_ms = latency;
    d.success = success;
    d
}

#[test]
fn full_buffers_are_flushed() {
    let mut r = TelemetryRecorder::new("/tmp/t", 2, Ok(())).unwrap();
    assert_eq!(r.flush_target(5), None);
    assert!(!r.record(record("a", "", 1, 1, 1, true)));
    assert!(r.record(record("a", "", 2, 1, 1, true)));
    assert_eq!(r.flush_target(5), Some("/tmp/t/telemetry-5.jsonl".to_string()));
    let failed = r.flush_done(Err(TelemetryError::IoError("disk".into())));
    assert_eq!(failed.unwrap_err().message(), "IO error: disk");
    assert_eq!(r.pending().len(), 2);
    assert_eq!(r.flush_done(Ok(())).unwrap(), 2);
    assert_eq!(r.pending().len(), 0);
    r.disable();
    assert!(!r.record(record("a", "", 1, 1, 1, true)));
    assert_eq!(r.pending().len(), 0);
    r.enable();
    assert!(!r.record(record("a", "", 1, 1, 1, true)));
    assert_eq!(r.pending().len(), 1);
}

#[test]
fn telemetry_errors_have_texts() {
    let e = TelemetryRecorder::new("/x", 1, Err("denied".into())).unwrap_err();
    assert_eq!(e.message(), "IO error: denied");
    assert_eq!(
        TelemetryError::SerializationError("x".into()).message(),
        "Serialization error: x"
    );
    assert_eq!(TelemetryError::InvalidPath("x".into()).message(), "Invalid path: x");
    assert_eq!(TelemetryError::BufferFull.message(), "Buffer full - telemetry dropped");
}

#[test]
fn report_of_a_period() {
    let mut all = Vec::new();
    for i in 0..12u64 {
        for _ in 0..=i {
            all.push(record(&format!("m{}", i), "pro", 50, 4, 7, true));
        }
    }
    all.push(record("m11", "free", 100, 25, 100, false));
    all.push(record("late", "free", 101, 1, 1, true));
    all.push(record("early", "free", -1, 1, 1, true));
    let r = TelemetryRecorder::new("/tmp/t", 1, Ok(())).unwrap();
    let report = r.generate_roi_report(&all, 0, 100);
    assert_eq!(report.period_start, 0);
    assert_eq!(report.period_end, 100);
    assert_eq!(report.total_requests, 79);
    assert_eq!(report.successful_requests, 78);
    assert_eq!(report.failed_requests, 1);
    assert_eq!(report.total_cost, 78 * 4 + 25);
    assert_eq!(report.total_savings, 78 * 6 - 15);
    assert_eq!(report.average_latency_ms, (78 * 7 + 100) / 79);
    assert_eq!(report.top_models.len(), 10);
    assert_eq!(report.top_models[0].model_name, "m11");
    assert_eq!(report.top_models[0].usage_count, 13);
    assert_eq!(report.top_models[0].total_cost, 12 * 4 + 25);
    assert_eq!(report.top_models[0].total_savings, 12 * 6 - 15);
    assert_eq!(report.top_models[9].model_name, "m2");
    let tiers = &report.cost_breakdown_by_tier;
    assert_eq!(tiers.len(), 2);
    assert_eq!(tiers.iter().map(|t| t.request_count).sum::<u64>(), report.total_requests);
    assert_eq!(tiers.iter().map(|t| t.total_cost).sum::<u128>(), report.total_cost);
    let free = tiers.iter().find(|t| t.tier == "free").unwrap();
    assert_eq!((free.request_count, free.total_cost), (1, 25));
    let pro = tiers.iter().find(|t| t.tier == "pro").unwrap();
    assert_eq!((pro.request_count, pro.total_cost), (78, 312));
}

#[test]
fn report_of_nothing() {
    let r = TelemetryRecorder::new("/tmp/t", 1, Ok(())).unwrap();
    let report = r.generate_roi_report(&vec![], 0, 100);
    assert_eq!(report.total_requests, 0);
    assert_eq!(report.average_latency_ms, 0);
    assert!(report.top_models.is_empty());
    assert!(report.cost_breakdown_by_tier.is_empty());
}

#[test]
fn csv_fields_are_quoted_where_needed() {
    assert_eq!(csv_escape("plain"), "plain");
    assert_eq!(csv_escape(""), "");
    assert_eq!(csv_escape("a,b"), "\"a,b\"");
    assert_eq!(csv_escape("say \"hi\""), "\"say \"\"hi\"\"\"");
    assert_eq!(csv_escape("two\nlines"), "\"two\nlines\"");
}

#[test]
fn money_is_written_in_cents() {
    assert_eq!(write_cents(0), "0");
    assert_eq!(write_cents(100_000_000), "100");
    assert_eq!(write_cents(1_500_000), "1.5");
    assert_eq!(write_cents(1), "0.000001");
    assert_eq!(write_cents(2_000_120), "2.00012");
    assert_eq!(write_signed_cents(-1_500_000), "-1.5");
    assert_eq!(write_signed_cents(i64::MIN), "-9223372036854.775808");
    assert_eq!(write_signed(-12), "-12");
    assert_eq!(write_signed(120), "120");
}

#[test]
fn rows_and_documents_in_csv() {
    let mut d = TelemetryData::new_at(
        "r,1".into(),
        "gpt".into(),
        cents(1) as u64,
        cents(3) as u64,
        "c".into(),
        7,
    );
    d.shadow_model = Some("s".into());
    d.latency_ms = 4;
    d.priority = "balanced".into();
    d.provider = "openai".into();
    d.success = true;
    d.tokens_used = 9;
    let row = "\"r,1\",7,gpt,s,4,1,3,2,balanced,,false,openai,true,9,c";
    assert_eq!(csv_row(&d), row);
    let mut r = TelemetryRecorder::new("/tmp/t", 5, Ok(())).unwrap();
    assert_eq!(r.export_as_csv(), format!("{}\n", CSV_HEADER));
    r.record(d);
    assert_eq!(r.export_as_csv(), format!("{}\n{}\n", CSV_HEADER, row));
}

// Clocks.

#[test]
fn clocks_run_forward() {
    let c = Clock::start();
    let a = c.now();
    let b = c.now();
    assert!(b >= a);
    assert!(unix_now() > 1_600_000_000);
}

#[test]
fn clocks_count_from_their_start() {
    let start = Instant::now();
    let c = Clock::started_at(start);
    assert_eq!(c.at(start), 0);
    assert_eq!(c.at(start + Duration::from_nanos(1_500_000_007)), 1_500_000_007);
    let later = Clock::started_at(start + Duration::from_secs(5));
    assert_eq!(later.at(start), 0);
}

#[test]
fn unix_seconds_are_whole_and_not_below_zero() {
    let epoch = SystemTime::UNIX_EPOCH;
    assert_eq!(unix_seconds_at(epoch), 0);
    assert_eq!(unix_seconds_at(epoch + Duration::from_millis(1_999)), 1);
    assert_eq!(unix_seconds_at(epoch + Duration::from_secs(1_700_000_000)), 1_700_000_000);
    assert_eq!(unix_seconds_at(epoch - Duration::from_secs(3)), 0);
}
