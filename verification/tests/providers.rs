use routerfuel::calls::{
    begin_call, begin_stream, finish_anthropic, finish_gemini, finish_openai_compatible,
    finish_stream, first_text_block, outgoing, outgoing_stream, status_is_success, AnthropicBlock, AnthropicReply, AnthropicUsage, Answer,
    ChatCompletionResponse, Choice, GeminiCandidate, GeminiReply, GeminiUsage, Usage, WireBody,
};
use routerfuel::circuit_breaker::{CircuitBreaker, CircuitState};
use routerfuel::connectors::{
    build_anthropic_messages, build_openai_compatible_body, to_anthropic_body, to_gemini_body,
    ChatCompletionRequest, ChatMessage, ConnectorError,
};
use routerfuel::provider::{provider_base_url, Provider, WireFormat};
use routerfuel::vision::{
    model_listing, select_vision_model, to_anthropic_content, to_gemini_content,
    to_openai_compatible_content, ContentPart, ImageBase64, ImageUrl, MessageContent, ModelConfig,
    MultimodalMessage, PartKind, RoutingDecision,
};
use serde_json::Value;

const ALL: [Provider; 11] = [
    Provider::Anthropic,
    Provider::OpenAI,
    Provider::Gemini,
    Provider::DeepSeek,
    Provider::Mistral,
    Provider::XAI,
    Provider::Qwen,
    Provider::Moonshot,
    Provider::Zhipu,
    Provider::Meta,
    Provider::OpenRouter,
];

fn text(s: &str) -> MessageContent {
    MessageContent::Text(s.into())
}

fn message(role: &str, s: &str) -> ChatMessage {
    ChatMessage { role: role.into(), content: text(s) }
}

fn request(messages: Vec<ChatMessage>) -> ChatCompletionRequest {
    ChatCompletionRequest {
        model: "some-model".into(),
        messages,
        temperature: None,
        max_tokens: None,
        top_p: None,
        stream: None,
        shadow_model: None,
    }
}

fn image_parts() -> Vec<ContentPart> {
    vec![
        ContentPart { part_type: "text".into(), kind: PartKind::Text { text: "look".into() } },
        ContentPart {
            part_type: "image_url".into(),
            kind: PartKind::ImageUrl {
                image_url: ImageUrl { url: "https://e/x.png".into(), detail: None },
            },
        },
        ContentPart {
            part_type: "image".into(),
            kind: PartKind::ImageBase64 {
                image_data: ImageBase64 { media_type: "image/png".into(), data: "QUJD".into() },
            },
        },
        ContentPart { part_type: "text".into(), kind: PartKind::Text { text: "again".into() } },
    ]
}

fn parse(s: &str) -> Value {
    serde_json::from_str(s).unwrap()
}

// Providers.

#[test]
fn providers_have_names_and_slugs() {
    assert_eq!(Provider::XAI.name(), "xai");
    assert_eq!(Provider::OpenRouter.name(), "openrouter");
    assert_eq!(Provider::Gemini.openrouter_prefix(), "google");
    assert_eq!(Provider::Mistral.openrouter_prefix(), "mistralai");
    assert_eq!(Provider::XAI.openrouter_prefix(), "x-ai");
    assert_eq!(Provider::Moonshot.openrouter_prefix(), "moonshotai");
    assert_eq!(Provider::Zhipu.openrouter_prefix(), "z-ai");
    assert_eq!(Provider::Meta.openrouter_prefix(), "meta-llama");
    assert_eq!(Provider::OpenRouter.openrouter_prefix(), "");
    for (i, a) in ALL.iter().enumerate() {
        for b in &ALL[i + 1..] {
            assert_ne!(a.code(), b.code());
            assert_ne!(a.name(), b.name());
        }
    }
}

#[test]
fn providers_have_endpoints_and_formats() {
    assert_eq!(provider_base_url(Provider::Anthropic), "https://api.anthropic.com/v1/messages");
    assert_eq!(
        provider_base_url(Provider::Qwen),
        "https://dashscope-intl.aliyuncs.com/compatible-mode/v1/chat/completions"
    );
    assert_eq!(Provider::Anthropic.wire_format(), WireFormat::Anthropic);
    assert_eq!(Provider::Gemini.wire_format(), WireFormat::Gemini);
    assert_eq!(Provider::Meta.wire_format(), WireFormat::OpenAICompatible);
}

// Messages.

#[test]
fn text_message_has_no_image() {
    let msg = MultimodalMessage {
        role: "user".into(),
        content: MessageContent::Text("hello".into()),
    };
    assert!(!msg.content.has_image());
}

#[test]
fn parts_message_detects_image() {
    let msg = MultimodalMessage {
        role: "user".into(),
        content: MessageContent::Parts(vec![
            ContentPart {
                part_type: "text".into(),
                kind: PartKind::Text { text: "What is in this image?".into() },
            },
            ContentPart {
                part_type: "image_url".into(),
                kind: PartKind::ImageUrl {
                    image_url: ImageUrl {
                        url: "https://example.com/food.jpg".into(),
                        detail: Some("high".into()),
                    },
                },
            },
        ]),
    };
    assert!(msg.content.has_image());
    assert_eq!(msg.content.as_text(), "What is in this image?");
}

#[test]
fn anthropic_conversion_base64() {
    let msg = MultimodalMessage {
        role: "user".into(),
        content: MessageContent::Parts(vec![ContentPart {
            part_type: "image".into(),
            kind: PartKind::ImageBase64 {
                image_data: ImageBase64 {
                    media_type: "image/png".into(),
                    data: "abc123".into(),
                },
            },
        }]),
    };
    let v = to_anthropic_content(&msg);
    let source = &v["content"][0]["source"];
    assert_eq!(source["type"], "base64");
    assert_eq!(source["media_type"], "image/png");
}

#[test]
fn openai_compatible_conversion_base64() {
    let msg = MultimodalMessage {
        role: "user".into(),
        content: MessageContent::Parts(vec![ContentPart {
            part_type: "image_url".into(),
            kind: PartKind::ImageBase64 {
                image_data: ImageBase64 {
                    media_type: "image/jpeg".into(),
                    data: "xyz789".into(),
                },
            },
        }]),
    };
    let v = to_openai_compatible_content(&msg);
    let url = v["content"][0]["image_url"]["url"].as_str().unwrap();
    assert!(url.starts_with("data:image/jpeg;base64,"));
}

#[test]
fn texts_of_parts_are_joined_with_spaces() {
    assert_eq!(MessageContent::Parts(image_parts()).as_text(), "look again");
    assert_eq!(MessageContent::Parts(vec![]).as_text(), "");
    assert!(!MessageContent::Parts(vec![]).has_image());
}

#[test]
fn whole_messages_in_each_format() {
    let msg = MultimodalMessage {
        role: "assistant".into(),
        content: MessageContent::Parts(image_parts()),
    };
    assert_eq!(
        to_anthropic_content(&msg),
        parse(
            r#"{"role":"assistant","content":[{"type":"text","text":"look"},
            {"type":"image","source":{"type":"url","url":"https://e/x.png"}},
            {"type":"image","source":{"type":"base64","media_type":"image/png","data":"QUJD"}},
            {"type":"text","text":"again"}]}"#
        )
    );
    assert_eq!(
        to_openai_compatible_content(&msg),
        parse(
            r#"{"role":"assistant","content":[{"type":"text","text":"look"},
            {"type":"image_url","image_url":{"url":"https://e/x.png","detail":"auto"}},
            {"type":"image_url","image_url":{"url":"data:image/png;base64,QUJD"}},
            {"type":"text","text":"again"}]}"#
        )
    );
    assert_eq!(
        to_gemini_content(&msg),
        parse(
            r#"{"role":"model","parts":[{"text":"look"},
            {"fileData":{"mimeType":"image/jpeg","fileUri":"https://e/x.png"}},
            {"inlineData":{"mimeType":"image/png","data":"QUJD"}},
            {"text":"again"}]}"#
        )
    );
}

#[test]
fn plain_text_messages_in_each_format() {
    let msg = MultimodalMessage { role: "tool".into(), content: text("hi") };
    assert_eq!(to_anthropic_content(&msg), parse(r#"{"role":"tool","content":"hi"}"#));
    assert_eq!(to_openai_compatible_content(&msg), parse(r#"{"role":"tool","content":"hi"}"#));
    assert_eq!(to_gemini_content(&msg), parse(r#"{"role":"user","parts":[{"text":"hi"}]}"#));
}

// Bodies.

#[test]
fn system_messages_have_a_field_of_their_own_at_anthropic() {
    let (messages, system) = build_anthropic_messages(&[
        message("system", "be kind"),
        message("user", "hello"),
        message("system", "be brief"),
    ]);
    assert_eq!(messages, vec![parse(r#"{"role":"user","content":"hello"}"#)]);
    assert_eq!(system, Some("be kind be brief".to_string()));
    let (messages, system) = build_anthropic_messages(&[]);
    assert!(messages.is_empty());
    assert_eq!(system, None);
}

#[test]
fn anthropic_body_has_a_limit() {
    let mut req = request(vec![message("user", "hello")]);
    let body = to_anthropic_body(&req);
    assert_eq!(body.model, "some-model");
    assert_eq!(body.max_tokens, 1024);
    assert_eq!(body.system, None);
    assert_eq!(body.temperature, None);
    req.max_tokens = Some(7);
    req.temperature = Some(Value::from(1));
    let body = to_anthropic_body(&req);
    assert_eq!(body.max_tokens, 7);
    assert_eq!(body.temperature, Some(Value::from(1)));
}

#[test]
fn gemini_body_with_and_without_system_text() {
    let mut req = request(vec![message("system", "be kind"), message("user", "hello")]);
    req.max_tokens = Some(12);
    req.top_p = Some(Value::from(1));
    assert_eq!(
        to_gemini_body(&req),
        parse(
            r#"{"contents":[{"role":"user","parts":[{"text":"hello"}]}],
            "generationConfig":{"temperature":null,"maxOutputTokens":12,"topP":1},
            "systemInstruction":{"role":"system","parts":[{"text":"be kind"}]}}"#
        )
    );
    let req = request(vec![]);
    assert_eq!(
        to_gemini_body(&req),
        parse(
            r#"{"contents":[],
            "generationConfig":{"temperature":null,"maxOutputTokens":null,"topP":null}}"#
        )
    );
}

#[test]
fn openai_body_leaves_out_what_is_absent() {
    let mut req = request(vec![message("system", "be kind"), message("user", "hello")]);
    req.shadow_model = Some("other".into());
    assert_eq!(
        build_openai_compatible_body(&req),
        parse(
            r#"{"model":"some-model","messages":[{"role":"system","content":"be kind"},
            {"role":"user","content":"hello"}]}"#
        )
    );
    req.temperature = Some(Value::from(0));
    req.max_tokens = Some(5);
    req.top_p = Some(Value::from(1));
    req.stream = Some(true);
    let body = build_openai_compatible_body(&req);
    assert_eq!(body["temperature"], 0);
    assert_eq!(body["max_tokens"], 5);
    assert_eq!(body["top_p"], 1);
    assert_eq!(body["stream"], true);
    assert!(body.get("shadow_model").is_none());
}

#[test]
fn copies_hold_the_same() {
    let mut req = request(vec![ChatMessage {
        role: "user".into(),
        content: MessageContent::Parts(image_parts()),
    }]);
    req.temperature = Some(Value::from(1));
    req.shadow_model = Some("s".into());
    let copy = req.copy();
    assert_eq!(format!("{:?}", copy), format!("{:?}", req));
}

// Errors.

#[test]
fn connector_errors_have_texts() {
    assert_eq!(ConnectorError::Http("refused".into()).message(), "HTTP error: refused");
    assert_eq!(
        ConnectorError::ServerError { status: 503 }.message(),
        "Provider returned 5xx (503)"
    );
    assert_eq!(
        ConnectorError::Unauthorized.message(),
        "Unauthorized — the BYOK key supplied for this provider was rejected"
    );
    assert_eq!(ConnectorError::RateLimited.message(), "Rate limited");
    assert_eq!(ConnectorError::Timeout.message(), "Timeout");
    assert_eq!(ConnectorError::BadResponse("x".into()).message(), "Bad response: x");
    assert_eq!(ConnectorError::Serde("x".into()).message(), "Serialization: x");
    assert_eq!(ConnectorError::CircuitOpen.message(), "Circuit breaker open");
    assert_eq!(ConnectorError::NotImplemented("x".into()).message(), "Not implemented: x");
    assert_eq!(
        ConnectorError::MissingKey("openai".into()).message(),
        "Missing BYOK key: no API key supplied for provider 'openai' (directly or via OpenRouter)"
    );
}

#[test]
fn some_errors_trip_the_circuit() {
    assert!(ConnectorError::ServerError { status: 500 }.trips_circuit());
    assert!(ConnectorError::Timeout.trips_circuit());
    assert!(ConnectorError::Http("x".into()).trips_circuit());
    assert!(!ConnectorError::Unauthorized.trips_circuit());
    assert!(!ConnectorError::BadResponse("x".into()).trips_circuit());
}

// Calls.

fn pair(a: &str, b: &str) -> (String, String) {
    (a.into(), b.into())
}

#[test]
fn outgoing_calls_carry_the_clients_key() {
    let req = request(vec![message("user", "hello")]);
    let o = outgoing(Provider::Anthropic, &req, "k");
    assert_eq!(o.url, "https://api.anthropic.com/v1/messages");
    assert_eq!(o.bearer, None);
    assert_eq!(
        o.headers,
        vec![
            pair("x-api-key", "k"),
            pair("anthropic-version", "2023-06-01"),
            pair("content-type", "application/json")
        ]
    );
    assert!(matches!(o.body, WireBody::Anthropic(_)));

    let o = outgoing(Provider::Gemini, &req, "k");
    assert_eq!(
        o.url,
        "https://generativelanguage.googleapis.com/v1beta/models/some-model:generateContent"
    );
    assert_eq!(o.query, vec![pair("key", "k")]);
    assert_eq!(o.headers, vec![pair("content-type", "application/json")]);

    let o = outgoing(Provider::OpenRouter, &req, "k");
    assert_eq!(o.bearer, Some("k".to_string()));
    assert_eq!(
        o.headers,
        vec![pair("HTTP-Referer", "https://routerfuel.com"), pair("X-Title", "RouterFuel")]
    );

    let o = outgoing(Provider::OpenAI, &req, "k");
    assert!(o.headers.is_empty());
    assert!(o.query.is_empty());
    match o.body {
        WireBody::Json(v) => assert_eq!(v["model"], "some-model"),
        WireBody::Anthropic(_) => panic!("wrong body"),
    }
}

fn completion() -> ChatCompletionResponse {
    ChatCompletionResponse {
        id: "id-1".into(),
        object: "chat.completion".into(),
        created: 5,
        model: "m-1".into(),
        choices: vec![Choice {
            index: 0,
            message: message("assistant", "fine"),
            finish_reason: "stop".into(),
        }],
        usage: Usage { prompt_tokens: 3, completion_tokens: 4, total_tokens: 7 },
    }
}

fn replied<T>(status: u16, parsed: Result<T, String>) -> Answer<T> {
    Answer::Replied { status, text: "oops".into(), parsed }
}

#[test]
fn open_circuit_holds_calls_back() {
    let mut b = CircuitBreaker::new();
    let req = request(vec![]);
    assert!(begin_call(&mut b, Provider::OpenAI, &req, "k", 0).is_ok());
    for i in 0..3u128 {
        let a: Answer<ChatCompletionResponse> = replied(500, Err("".into()));
        let r = finish_openai_compatible(&mut b, Provider::OpenAI, a, 1, i);
        assert!(matches!(r, Err(ConnectorError::ServerError { status: 500 })));
    }
    let r = begin_call(&mut b, Provider::OpenAI, &req, "k", 10);
    assert!(matches!(r, Err(ConnectorError::CircuitOpen)));
    assert!(begin_call(&mut b, Provider::Meta, &req, "k", 10).is_ok());
    assert!(begin_call(&mut b, Provider::OpenAI, &req, "k", 60_000_000_003).is_ok());
    assert!(begin_call(&mut b, Provider::OpenAI, &req, "k", 60_000_000_004).is_err());
    let r = finish_openai_compatible(
        &mut b,
        Provider::OpenAI,
        replied(200, Ok(completion())),
        1,
        60_000_000_005,
    );
    assert!(r.is_ok());
    assert_eq!(b.state(Provider::OpenAI), CircuitState::Closed);
}

#[test]
fn openai_compatible_answers_are_passed_on() {
    let mut b = CircuitBreaker::new();
    let c = finish_openai_compatible(
        &mut b,
        Provider::DeepSeek,
        replied(299, Ok(completion())),
        9,
        0,
    )
    .unwrap();
    assert_eq!(c.provider, Provider::DeepSeek);
    assert_eq!(c.model_id, "m-1");
    assert_eq!(c.latency_ms, 9);
    assert_eq!(c.input_tokens, 3);
    assert_eq!(c.output_tokens, 4);
    assert_eq!(c.response.id, "id-1");
}

#[test]
fn refusals_are_told_apart() {
    let mut b = CircuitBreaker::new();
    let cases = [401u16, 403, 429, 404, 302];
    let mut seen = Vec::new();
    for status in cases {
        let a: Answer<ChatCompletionResponse> = replied(status, Err("".into()));
        let e = finish_openai_compatible(&mut b, Provider::OpenAI, a, 1, 0).unwrap_err();
        seen.push(e.message());
    }
    assert_eq!(seen[0], ConnectorError::Unauthorized.message());
    assert_eq!(seen[1], ConnectorError::Unauthorized.message());
    assert_eq!(seen[2], "Rate limited");
    assert_eq!(seen[3], "Bad response: HTTP 404: oops");
    assert_eq!(seen[4], "Bad response: HTTP 302: oops");
    assert_eq!(b.failure_count(Provider::OpenAI), 0);

    let a: Answer<AnthropicReply> = replied(403, Err("".into()));
    let e = finish_anthropic(&mut b, a, 1, 2, 0).unwrap_err();
    assert_eq!(e.message(), "Bad response: HTTP 403: oops");
    let a: Answer<GeminiReply> = replied(403, Err("".into()));
    let e = finish_gemini(&mut b, "g", a, 1, 2, 0).unwrap_err();
    assert!(matches!(e, ConnectorError::Unauthorized));
}

#[test]
fn transport_failures_and_odd_bodies() {
    let mut b = CircuitBreaker::new();
    let p = Provider::Qwen;
    let a: Answer<ChatCompletionResponse> = Answer::Failed("no route".into());
    let e = finish_openai_compatible(&mut b, p, a, 1, 0).unwrap_err();
    assert_eq!(e.message(), "HTTP error: no route");
    assert_eq!(b.failure_count(p), 0);
    let a: Answer<ChatCompletionResponse> = Answer::TimedOut;
    let e = finish_openai_compatible(&mut b, p, a, 1, 0).unwrap_err();
    assert!(matches!(e, ConnectorError::Timeout));
    assert_eq!(b.failure_count(p), 1);
    let a: Answer<ChatCompletionResponse> = replied(200, Err("missing field".into()));
    let e = finish_openai_compatible(&mut b, p, a, 1, 0).unwrap_err();
    assert_eq!(
        e.message(),
        "Bad response: Provider returned unexpected response format: missing field"
    );
    assert_eq!(b.failure_count(p), 2);
    assert!(status_is_success(204));
    assert!(!status_is_success(300));
}

#[test]
fn every_answer_ends_the_trial() {
    let req = request(vec![]);
    let minute = 60_000_000_000u128;
    for status in [401u16, 403, 404, 429] {
        let mut b = CircuitBreaker::new();
        for i in 0..3u128 {
            b.record_failure_at(Provider::Anthropic, i);
        }
        assert!(begin_call(&mut b, Provider::Anthropic, &req, "k", 2 * minute).is_ok());
        assert!(begin_call(&mut b, Provider::Anthropic, &req, "k", 2 * minute).is_err());
        let a: Answer<AnthropicReply> = replied(status, Err("".into()));
        assert!(finish_anthropic(&mut b, a, 1, 2, 2 * minute).is_err());
        assert_eq!(b.state(Provider::Anthropic), CircuitState::Open);
        assert!(begin_call(&mut b, Provider::Anthropic, &req, "k", 2 * minute).is_ok());
        let a: Answer<AnthropicReply> = Answer::Failed("reset".into());
        assert!(finish_anthropic(&mut b, a, 1, 2, 2 * minute).is_err());
        assert!(begin_call(&mut b, Provider::Anthropic, &req, "k", 2 * minute).is_ok());
    }
}

#[test]
fn streams_are_asked_for_in_each_format() {
    let req = request(vec![message("user", "hello")]);
    let o = outgoing_stream(Provider::Gemini, &req, "k");
    assert_eq!(
        o.url,
        "https://generativelanguage.googleapis.com/v1beta/models/some-model:streamGenerateContent"
    );
    assert_eq!(o.query, vec![pair("alt", "sse"), pair("key", "k")]);
    match outgoing_stream(Provider::OpenAI, &req, "k").body {
        WireBody::Json(v) => assert_eq!(v["stream"], true),
        WireBody::Anthropic(_) => panic!("wrong body"),
    }
    match outgoing_stream(Provider::Anthropic, &req, "k").body {
        WireBody::Anthropic(b) => assert_eq!(b.stream, Some(true)),
        WireBody::Json(_) => panic!("wrong body"),
    }
    match outgoing(Provider::Anthropic, &req, "k").body {
        WireBody::Anthropic(b) => assert_eq!(b.stream, None),
        WireBody::Json(_) => panic!("wrong body"),
    }
}

#[test]
fn stream_heads_are_settled() {
    let mut b = CircuitBreaker::new();
    let req = request(vec![]);
    let p = Provider::XAI;
    assert!(begin_stream(&mut b, p, &req, "k", 0).is_ok());
    assert!(finish_stream(&mut b, p, replied(200, Ok(())), 0).is_ok());
    for _ in 0..3 {
        let e = finish_stream(&mut b, p, replied(502, Err("".into())), 0).unwrap_err();
        assert!(matches!(e, ConnectorError::ServerError { status: 502 }));
    }
    assert!(matches!(begin_stream(&mut b, p, &req, "k", 0), Err(ConnectorError::CircuitOpen)));
}

fn block(kind: &str, text: Option<&str>) -> AnthropicBlock {
    AnthropicBlock { kind: kind.into(), text: text.map(|t| t.to_string()) }
}

#[test]
fn anthropic_answers_are_translated() {
    let mut b = CircuitBreaker::new();
    let reply = AnthropicReply {
        id: "msg_1".into(),
        model: "model-x".into(),
        content: vec![block("thinking", Some("hm")), block("text", Some("hi")), block("text", None)],
        stop_reason: "end_turn".into(),
        usage: AnthropicUsage { input_tokens: 10, output_tokens: 20 },
    };
    let c = finish_anthropic(&mut b, replied(200, Ok(reply)), 33, 1_700_000_000, 0).unwrap();
    assert_eq!(c.provider, Provider::Anthropic);
    assert_eq!(c.model_id, "model-x");
    assert_eq!(c.response.model, "model-x");
    assert_eq!(c.response.id, "msg_1");
    assert_eq!(c.response.object, "chat.completion");
    assert_eq!(c.response.created, 1_700_000_000);
    assert_eq!(c.response.choices.len(), 1);
    assert_eq!(c.response.choices[0].index, 0);
    assert_eq!(c.response.choices[0].message.role, "assistant");
    assert_eq!(c.response.choices[0].message.content.as_text(), "hi");
    assert_eq!(c.response.choices[0].finish_reason, "end_turn");
    assert_eq!(
        c.response.usage,
        Usage { prompt_tokens: 10, completion_tokens: 20, total_tokens: 30 }
    );
    assert_eq!(c.latency_ms, 33);
    assert_eq!(first_text_block(&vec![]), "");
    assert_eq!(first_text_block(&vec![block("text", None), block("text", Some("late"))]), "");
}

#[test]
fn gemini_answers_are_translated() {
    let mut b = CircuitBreaker::new();
    let reply = GeminiReply {
        candidates: vec![GeminiCandidate {
            parts: vec![Some("hi".into()), Some("more".into())],
            finish_reason: Some("STOP".into()),
        }],
        usage_metadata: Some(GeminiUsage { prompt_token_count: 4, candidates_token_count: 6 }),
    };
    let c = finish_gemini(&mut b, "gem", replied(200, Ok(reply)), 1, 77, 0).unwrap();
    assert_eq!(c.response.id, "gemini-77");
    assert_eq!(c.response.created, 77);
    assert_eq!(c.model_id, "gem");
    assert_eq!(c.response.choices[0].message.content.as_text(), "hi");
    assert_eq!(c.response.choices[0].finish_reason, "STOP");
    assert_eq!(c.response.usage.total_tokens, 10);

    let empty = GeminiReply { candidates: vec![], usage_metadata: None };
    let c = finish_gemini(&mut b, "gem", replied(200, Ok(empty)), 1, 77, 0).unwrap();
    assert_eq!(c.response.choices[0].message.content.as_text(), "");
    assert_eq!(c.response.choices[0].finish_reason, "stop");
    assert_eq!(c.response.usage.total_tokens, 0);
}

// Models.

fn model(name: &str, sees: bool, window: u32, quality: f64) -> ModelConfig {
    ModelConfig {
        api_id: name.into(),
        display_name: name.to_uppercase(),
        provider: Provider::OpenAI,
        context_window: window,
        supports_vision: sees,
        open_weight: false,
        quality_score: quality.to_bits(),
        cost_per_1m_input: Value::from(2),
        cost_per_1m_output: Value::from(8),
    }
}

fn decision(name: &str, sees: bool) -> RoutingDecision {
    RoutingDecision { model: model(name, sees, 1000, 0.5), reason: "because".into(), score: 0 }
}

#[test]
fn vision_model_is_chosen_in_steps() {
    let r = select_vision_model(Ok(decision("a", true)), Err("x".into()), vec![], 10);
    assert_eq!(r.unwrap().model.api_id, "a");
    let r = select_vision_model(Ok(decision("a", false)), Ok(decision("b", true)), vec![], 10);
    assert_eq!(r.unwrap().model.api_id, "b");
    let r = select_vision_model(Err("none".into()), Ok(decision("b", true)), vec![], 10);
    assert_eq!(r.unwrap_err(), "none");
    let r = select_vision_model(Ok(decision("a", false)), Err("none".into()), vec![], 10);
    assert_eq!(r.unwrap_err(), "none");
}

#[test]
fn best_vision_model_that_takes_the_request() {
    let models = vec![
        model("low", true, 1000, 0.2),
        model("best", true, 1000, 0.9),
        model("twin", true, 1000, 0.9),
        model("small", true, 10, 0.99),
    ];
    let r = select_vision_model(Ok(decision("a", false)), Ok(decision("b", false)), models, 10);
    let d = r.unwrap();
    assert_eq!(d.model.api_id, "twin");
    assert_eq!(d.reason, "TWIN chosen as best available vision-capable model");
    assert_eq!(f64::from_bits(d.score), 0.9);
    let models = vec![model("small", true, 10, 0.99)];
    let r = select_vision_model(Ok(decision("a", false)), Ok(decision("b", false)), models, 10);
    assert_eq!(r.unwrap_err(), "No vision-capable model available in registry");
}

#[test]
fn models_are_listed() {
    let v = model_listing(&vec![model("a", true, 1000, 0.5)]);
    assert_eq!(
        v,
        parse(
            r#"{"object":"list","data":[{"id":"a","display_name":"A","provider":"openai",
            "context_window":1000,"supports_vision":true,"open_weight":false,
            "cost_per_1m_input_cents":2,"cost_per_1m_output_cents":8}]}"#
        )
    );
}
