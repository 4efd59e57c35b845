//! A call to a provider: what goes out, and how its answer is settled.
//!
//! The program around the library sends what [`begin_call`] hands it, reads the answer, and hands
//! the answer to the function that settles it for the provider's wire format.

use crate::circuit_breaker::{
    CircuitBreaker, ProviderState, RESET_TIMEOUT, asked, blocked, failed, healthy, released,
};
use crate::clock::{age, seconds};
use crate::connectors::{
    AnthropicBody, AnthropicBodyView, ChatCompletionRequest, ChatMessage, ConnectorError, ErrorView,
    MessageView, RequestView, anthropic_body_of, build_openai_compatible_body, gemini_body_of,
    openai_body_of, to_anthropic_body, to_gemini_body,
};
use crate::json::{JsonView, json_view};
use crate::provider::{Provider, WireFormat, base_url, format_of, provider_base_url};
use crate::text::{decimal, decimal_text, pair_texts, same_text, text2, text3, text_view};
use crate::vision::{ContentView, MessageContent};
use vstd::prelude::*;
use vstd::string::*;

verus! {

/// The version of Anthropic's interface.
pub const ANTHROPIC_VERSION: &'static str = "2023-06-01";

/// The body of a request.
#[derive(Debug)]
pub enum WireBody {
    Anthropic(AnthropicBody),
    Json(serde_json::Value),
}

/// What is sent to a provider.
#[derive(Debug)]
pub struct Outgoing {
    pub url: String,
    /// Sent as `Authorization: Bearer ..`.
    pub bearer: Option<String>,
    pub headers: Vec<(String, String)>,
    pub query: Vec<(String, String)>,
    pub body: WireBody,
}

/// The body of a request by its contents.
pub enum BodyView {
    Anthropic(AnthropicBodyView),
    Json(JsonView),
}

/// What is sent to a provider, by its contents.
pub struct OutgoingView {
    pub url: Seq<char>,
    pub bearer: Option<Seq<char>>,
    pub headers: Seq<(Seq<char>, Seq<char>)>,
    pub query: Seq<(Seq<char>, Seq<char>)>,
    pub body: BodyView,
}

impl View for WireBody {
    type V = BodyView;

    open spec fn view(&self) -> BodyView {
        match self {
            WireBody::Anthropic(b) => BodyView::Anthropic(b@),
            WireBody::Json(v) => BodyView::Json(json_view(*v)),
        }
    }
}

impl View for Outgoing {
    type V = OutgoingView;

    open spec fn view(&self) -> OutgoingView {
        OutgoingView {
            url: self.url@,
            bearer: text_view(self.bearer),
            headers: pair_texts(self.headers@),
            query: pair_texts(self.query@),
            body: self.body@,
        }
    }
}

/// The headers that a provider is sent beside the key. OpenRouter is told who calls.
pub open spec fn attribution(p: Provider) -> Seq<(Seq<char>, Seq<char>)> {
    if p is OpenRouter {
        seq![
            ("HTTP-Referer"@, "https://routerfuel.com"@),
            ("X-Title"@, "RouterFuel"@),
        ]
    } else {
        seq![]
    }
}

/// What a provider is sent for a request that is paid with the given key.
pub open spec fn outgoing_for(p: Provider, req: RequestView, key: Seq<char>) -> OutgoingView {
    match format_of(p) {
        WireFormat::Anthropic => OutgoingView {
            url: base_url(p),
            bearer: None,
            headers: seq![
                ("x-api-key"@, key),
                ("anthropic-version"@, ANTHROPIC_VERSION@),
                ("content-type"@, "application/json"@),
            ],
            query: seq![],
            body: BodyView::Anthropic(anthropic_body_of(req)),
        },
        WireFormat::Gemini => OutgoingView {
            url: base_url(p) + "/"@ + (req.model + ":generateContent"@),
            bearer: None,
            headers: seq![("content-type"@, "application/json"@)],
            query: seq![("key"@, key)],
            body: BodyView::Json(gemini_body_of(req)),
        },
        WireFormat::OpenAICompatible => OutgoingView {
            url: base_url(p),
            bearer: Some(key),
            headers: attribution(p),
            query: seq![],
            body: BodyView::Json(openai_body_of(req)),
        },
    }
}

/// What a provider is sent for a request whose answer is wanted as a stream of events.
pub open spec fn outgoing_stream_for(
    p: Provider,
    req: RequestView,
    key: Seq<char>,
) -> OutgoingView {
    let plain = outgoing_for(p, req, key);
    match format_of(p) {
        WireFormat::Anthropic => OutgoingView {
            body: BodyView::Anthropic(
                AnthropicBodyView { stream: Some(true), ..anthropic_body_of(req) },
            ),
            ..plain
        },
        WireFormat::Gemini => OutgoingView {
            url: base_url(p) + "/"@ + (req.model + ":streamGenerateContent"@),
            query: seq![("alt"@, "sse"@), ("key"@, key)],
            ..plain
        },
        WireFormat::OpenAICompatible => OutgoingView {
            body: BodyView::Json(openai_body_of(RequestView { stream: Some(true), ..req })),
            ..plain
        },
    }
}

fn push_pair(pairs: &mut Vec<(String, String)>, name: &str, value: &str)
    ensures
        pair_texts(final(pairs)@) == pair_texts(old(pairs)@).push((name@, value@)),
{
    let ghost before = pair_texts(pairs@);
    pairs.push((name.to_string(), value.to_string()));
    assert(pair_texts(pairs@) == before.push((name@, value@)));
}

/// What the provider is sent for the request, paid with the client's key.
pub fn outgoing(provider: Provider, req: &ChatCompletionRequest, client_api_key: &str) -> (o:
    Outgoing)
    ensures
        o@ == outgoing_for(provider, req@, client_api_key@),
{
    let mut headers: Vec<(String, String)> = Vec::new();
    let mut query: Vec<(String, String)> = Vec::new();
    assert(pair_texts(headers@) == Seq::<(Seq<char>, Seq<char>)>::empty());
    let url = provider_base_url(provider);
    match provider.wire_format() {
        WireFormat::Anthropic => {
            push_pair(&mut headers, "x-api-key", client_api_key);
            push_pair(&mut headers, "anthropic-version", ANTHROPIC_VERSION);
            push_pair(&mut headers, "content-type", "application/json");
            let o = Outgoing {
                url: url.to_string(),
                bearer: None,
                headers,
                query,
                body: WireBody::Anthropic(to_anthropic_body(req)),
            };
            assert(o@.headers == outgoing_for(provider, req@, client_api_key@).headers);
            o
        },
        WireFormat::Gemini => {
            push_pair(&mut headers, "content-type", "application/json");
            push_pair(&mut query, "key", client_api_key);
            let method = text2(req.model.as_str(), ":generateContent");
            let o = Outgoing {
                url: text3(url, "/", method.as_str()),
                bearer: None,
                headers,
                query,
                body: WireBody::Json(to_gemini_body(req)),
            };
            assert(o@.headers == outgoing_for(provider, req@, client_api_key@).headers);
            assert(o@.query == outgoing_for(provider, req@, client_api_key@).query);
            o
        },
        WireFormat::OpenAICompatible => {
            match provider {
                Provider::OpenRouter => {
                    push_pair(&mut headers, "HTTP-Referer", "https://routerfuel.com");
                    push_pair(&mut headers, "X-Title", "RouterFuel");
                },
                _ => {},
            }
            let o = Outgoing {
                url: url.to_string(),
                bearer: Some(client_api_key.to_string()),
                headers,
                query,
                body: WireBody::Json(build_openai_compatible_body(req)),
            };
            assert(o@.headers == attribution(provider));
            o
        },
    }
}

/// What the provider is sent for the request, paid with the client's key, where the answer is wanted
/// as a stream.
pub fn outgoing_stream(
    provider: Provider,
    req: &ChatCompletionRequest,
    client_api_key: &str,
) -> (o: Outgoing)
    ensures
        o@ == outgoing_stream_for(provider, req@, client_api_key@),
{
    match provider.wire_format() {
        WireFormat::Anthropic => {
            let mut o = outgoing(provider, req, client_api_key);
            let mut body = to_anthropic_body(req);
            body.stream = Some(true);
            o.body = WireBody::Anthropic(body);
            o
        },
        WireFormat::Gemini => {
            let mut o = outgoing(provider, req, client_api_key);
            let method = text2(req.model.as_str(), ":streamGenerateContent");
            let url = text3(provider_base_url(provider), "/", method.as_str());
            let mut query: Vec<(String, String)> = Vec::new();
            assert(pair_texts(query@) == Seq::<(Seq<char>, Seq<char>)>::empty());
            push_pair(&mut query, "alt", "sse");
            push_pair(&mut query, "key", client_api_key);
            o.url = url;
            o.query = query;
            assert(o@.query == outgoing_stream_for(provider, req@, client_api_key@).query);
            o
        },
        WireFormat::OpenAICompatible => {
            let mut streamed = req.copy();
            streamed.stream = Some(true);
            let mut o = outgoing(provider, req, client_api_key);
            o.body = WireBody::Json(build_openai_compatible_body(&streamed));
            o
        },
    }
}

/// Begins a streamed call at time `now`: hands out what to send, unless the provider's circuit holds
/// the request back.
pub fn begin_stream(
    breaker: &mut CircuitBreaker,
    provider: Provider,
    req: &ChatCompletionRequest,
    client_api_key: &str,
    now: u128,
) -> (r: Result<Outgoing, ConnectorError>)
    requires
        old(breaker).wf(),
    ensures
        final(breaker).wf(),
        final(breaker).clock() == old(breaker).clock(),
        final(breaker)@ == old(breaker)@.insert(provider, asked(old(breaker)@[provider], now)),
        r is Err <==> blocked(old(breaker)@[provider], now),
        match r {
            Ok(o) => o@ == outgoing_stream_for(provider, req@, client_api_key@),
            Err(e) => e@ is CircuitOpen,
        },
{
    if breaker.is_open_at(provider, now) {
        return Err(ConnectorError::CircuitOpen);
    }
    Ok(outgoing_stream(provider, req, client_api_key))
}

/// Begins a call at time `now`: hands out what to send, unless the provider's circuit holds the
/// request back.
pub fn begin_call(
    breaker: &mut CircuitBreaker,
    provider: Provider,
    req: &ChatCompletionRequest,
    client_api_key: &str,
    now: u128,
) -> (r: Result<Outgoing, ConnectorError>)
    requires
        old(breaker).wf(),
    ensures
        final(breaker).wf(),
        final(breaker).clock() == old(breaker).clock(),
        final(breaker)@ == old(breaker)@.insert(provider, asked(old(breaker)@[provider], now)),
        r is Err <==> blocked(old(breaker)@[provider], now),
        match r {
            Ok(o) => o@ == outgoing_for(provider, req@, client_api_key@),
            Err(e) => e@ is CircuitOpen,
        },
{
    if breaker.is_open_at(provider, now) {
        return Err(ConnectorError::CircuitOpen);
    }
    Ok(outgoing(provider, req, client_api_key))
}

// Answers.

/// What came back from a provider.
#[derive(Debug)]
pub enum Answer<T> {
    /// Sending the request or reading the answer took too long.
    TimedOut,
    /// Sending the request or reading the answer failed otherwise, with the transport's text.
    Failed(String),
    /// The provider answered. Where the status tells of success, `parsed` is the body in the
    /// provider's wire format, or why it is not in it.
    Replied { status: u16, text: String, parsed: Result<T, String> },
}

/// Tokens that a call used.
#[derive(Debug, Clone, Copy, PartialEq, Eq, Structural)]
pub struct Usage {
    pub prompt_tokens: u32,
    pub completion_tokens: u32,
    pub total_tokens: u32,
}

/// One of the answers that a provider offers.
#[derive(Debug)]
pub struct Choice {
    pub index: u32,
    pub message: ChatMessage,
    pub finish_reason: String,
}

/// A chat completion, in the form that clients are sent.
#[derive(Debug)]
pub struct ChatCompletionResponse {
    pub id: String,
    pub object: String,
    /// Seconds since the Unix epoch.
    pub created: u64,
    pub model: String,
    pub choices: Vec<Choice>,
    pub usage: Usage,
}

/// One of the answers by its contents.
pub struct ChoiceView {
    pub index: u32,
    pub message: MessageView,
    pub finish_reason: Seq<char>,
}

/// A chat completion by its contents.
pub struct ResponseView {
    pub id: Seq<char>,
    pub object: Seq<char>,
    pub created: u64,
    pub model: Seq<char>,
    pub choices: Seq<ChoiceView>,
    pub usage: Usage,
}

impl View for Choice {
    type V = ChoiceView;

    open spec fn view(&self) -> ChoiceView {
        ChoiceView {
            index: self.index,
            message: self.message@,
            finish_reason: self.finish_reason@,
        }
    }
}

impl View for ChatCompletionResponse {
    type V = ResponseView;

    open spec fn view(&self) -> ResponseView {
        ResponseView {
            id: self.id@,
            object: self.object@,
            created: self.created,
            model: self.model@,
            choices: self.choices@.map_values(|c: Choice| c@),
            usage: self.usage,
        }
    }
}

/// A call that succeeded.
#[derive(Debug)]
pub struct ConnectorResult {
    pub provider: Provider,
    pub model_id: String,
    pub response: ChatCompletionResponse,
    pub latency_ms: u64,
    pub input_tokens: u32,
    pub output_tokens: u32,
}

/// A call that succeeded, by its contents.
pub struct ResultView {
    pub provider: Provider,
    pub model_id: Seq<char>,
    pub response: ResponseView,
    pub latency_ms: u64,
    pub input_tokens: u32,
    pub output_tokens: u32,
}

impl View for ConnectorResult {
    type V = ResultView;

    open spec fn view(&self) -> ResultView {
        ResultView {
            provider: self.provider,
            model_id: self.model_id@,
            response: self.response@,
            latency_ms: self.latency_ms,
            input_tokens: self.input_tokens,
            output_tokens: self.output_tokens,
        }
    }
}

/// Whether a status tells of success.
pub open spec fn is_success(status: u16) -> bool {
    200 <= status <= 299
}

/// Whether a status tells of a fault at the provider.
pub open spec fn is_server_error(status: u16) -> bool {
    500 <= status <= 599
}

/// Whether a status tells that the key was rejected. Anthropic says so with 401 alone.
pub open spec fn is_unauthorized(p: Provider, status: u16) -> bool {
    status == 401 || (status == 403 && !(format_of(p) is Anthropic))
}

/// The error that a status other than success stands for.
pub open spec fn refusal(p: Provider, status: u16, text: Seq<char>) -> ErrorView {
    if is_unauthorized(p, status) {
        ErrorView::Unauthorized
    } else if status == 429 {
        ErrorView::RateLimited
    } else if is_server_error(status) {
        ErrorView::ServerError(status)
    } else {
        ErrorView::BadResponse("HTTP "@ + decimal(status as nat) + (": "@ + text))
    }
}

/// The error that an answer stands for, if it is one.
pub open spec fn answer_error<T>(p: Provider, a: Answer<T>) -> Option<ErrorView> {
    match a {
        Answer::TimedOut => Some(ErrorView::Timeout),
        Answer::Failed(e) => Some(ErrorView::Http(e@)),
        Answer::Replied { status, text, parsed } => if is_success(status) {
            match parsed {
                Ok(_) => None,
                Err(e) => Some(
                    ErrorView::BadResponse(
                        "Provider returned unexpected response format: "@ + e@,
                    ),
                ),
            }
        } else {
            Some(refusal(p, status, text@))
        },
    }
}

/// Whether an answer counts as a failure of the provider: a timeout, a server error, or a body that
/// is not in the provider's format.
pub open spec fn counts_as_failure<T>(a: Answer<T>) -> bool {
    match a {
        Answer::TimedOut => true,
        Answer::Failed(_) => false,
        Answer::Replied { status, text, parsed } => is_server_error(status) || (is_success(status)
            && parsed is Err),
    }
}

/// The breaker after an answer: success closes the provider's circuit, a failure counts against it,
/// and anything else leaves it as it is, but for a trial in flight, which has ended.
pub open spec fn breaker_after<T>(
    b: Map<Provider, ProviderState>,
    p: Provider,
    a: Answer<T>,
    now: u128,
) -> Map<Provider, ProviderState> {
    if answer_error(p, a) is None {
        b.insert(p, healthy())
    } else if counts_as_failure(a) {
        b.insert(p, failed(b[p], now))
    } else {
        b.insert(p, released(b[p]))
    }
}

/// Whether a status tells of success, so that the body is to be read in the provider's format.
pub fn status_is_success(status: u16) -> (r: bool)
    ensures
        r == is_success(status),
{
    200 <= status && status <= 299
}

/// The error for a status other than success. A server error counts against the provider; any other
/// ends a trial without a verdict.
fn refuse(
    breaker: &mut CircuitBreaker,
    provider: Provider,
    status: u16,
    text: &str,
    now: u128,
) -> (e: ConnectorError)
    requires
        old(breaker).wf(),
        is_server_error(status) ==> old(breaker)@[provider].failures < u32::MAX,
        !is_success(status),
    ensures
        final(breaker).wf(),
        final(breaker).clock() == old(breaker).clock(),
        e@ == refusal(provider, status, text@),
        final(breaker)@ == old(breaker)@.insert(
            provider,
            if is_server_error(status) {
                failed(old(breaker)@[provider], now)
            } else {
                released(old(breaker)@[provider])
            },
        ),
{
    if !(500 <= status && status <= 599) {
        breaker.release_probe(provider);
    }
    let anthropic = match provider.wire_format() {
        WireFormat::Anthropic => true,
        _ => false,
    };
    if status == 401 || (status == 403 && !anthropic) {
        ConnectorError::Unauthorized
    } else if status == 429 {
        ConnectorError::RateLimited
    } else if 500 <= status && status <= 599 {
        breaker.record_failure_at(provider, now);
        ConnectorError::ServerError { status }
    } else {
        let n = decimal_text(status as u128);
        let tail = text2(": ", text);
        ConnectorError::BadResponse(text3("HTTP ", n.as_str(), tail.as_str()))
    }
}

/// Settles an answer as far as that does not depend on the wire format: the body of one that
/// succeeded, or the error. The breaker is told.
fn settle<T>(
    breaker: &mut CircuitBreaker,
    provider: Provider,
    answer: Answer<T>,
    now: u128,
) -> (r: Result<T, ConnectorError>)
    requires
        old(breaker).wf(),
        counts_as_failure(answer) ==> old(breaker)@[provider].failures < u32::MAX,
    ensures
        final(breaker).wf(),
        final(breaker).clock() == old(breaker).clock(),
        final(breaker)@ == breaker_after(old(breaker)@, provider, answer, now),
        match r {
            Ok(body) => answer_error(provider, answer) is None && answer is Replied
                && answer->parsed == Ok::<T, String>(body),
            Err(e) => answer_error(provider, answer) == Some(e@),
        },
{
    match answer {
        Answer::TimedOut => {
            breaker.record_failure_at(provider, now);
            Err(ConnectorError::Timeout)
        },
        Answer::Failed(e) => {
            breaker.release_probe(provider);
            Err(ConnectorError::Http(e))
        },
        Answer::Replied { status, text, parsed } => {
            if status_is_success(status) {
                match parsed {
                    Ok(body) => {
                        breaker.record_success(provider);
                        Ok(body)
                    },
                    Err(e) => {
                        breaker.record_failure_at(provider, now);
                        Err(
                            ConnectorError::BadResponse(
                                text2(
                                    "Provider returned unexpected response format: ",
                                    e.as_str(),
                                ),
                            ),
                        )
                    },
                }
            } else {
                Err(refuse(breaker, provider, status, text.as_str(), now))
            }
        },
    }
}

/// Settles the head of a streamed answer, whose body is passed on as it comes: there is nothing in it
/// to read.
pub fn finish_stream(
    breaker: &mut CircuitBreaker,
    provider: Provider,
    head: Answer<()>,
    now: u128,
) -> (r: Result<(), ConnectorError>)
    requires
        old(breaker).wf(),
        counts_as_failure(head) ==> old(breaker)@[provider].failures < u32::MAX,
    ensures
        final(breaker).wf(),
        final(breaker).clock() == old(breaker).clock(),
        final(breaker)@ == breaker_after(old(breaker)@, provider, head, now),
        match r {
            Ok(_) => answer_error(provider, head) is None,
            Err(e) => answer_error(provider, head) == Some(e@),
        },
{
    settle(breaker, provider, head, now)
}

/// The one choice of a completion that holds a single text.
pub open spec fn single_choice(text: Seq<char>, finish_reason: Seq<char>) -> Seq<ChoiceView> {
    seq![
        ChoiceView {
            index: 0,
            message: MessageView { role: "assistant"@, content: ContentView::Text(text) },
            finish_reason,
        },
    ]
}

fn one_choice(text: String, finish_reason: String) -> (v: Vec<Choice>)
    ensures
        v@.map_values(|c: Choice| c@) == single_choice(text@, finish_reason@),
{
    let mut v: Vec<Choice> = Vec::new();
    v.push(
        Choice {
            index: 0,
            message: ChatMessage {
                role: "assistant".to_string(),
                content: MessageContent::Text(text),
            },
            finish_reason,
        },
    );
    assert(v@.map_values(|c: Choice| c@) == single_choice(text@, finish_reason@));
    v
}

// OpenAI-compatible providers.

/// What is made of an OpenAI-compatible provider's answer.
pub open spec fn openai_result(p: Provider, body: ResponseView, latency_ms: u64) -> ResultView {
    ResultView {
        provider: p,
        model_id: body.model,
        response: body,
        latency_ms,
        input_tokens: body.usage.prompt_tokens,
        output_tokens: body.usage.completion_tokens,
    }
}

/// Settles the answer of an OpenAI-compatible provider.
pub fn finish_openai_compatible(
    breaker: &mut CircuitBreaker,
    provider: Provider,
    answer: Answer<ChatCompletionResponse>,
    latency_ms: u64,
    now: u128,
) -> (r: Result<ConnectorResult, ConnectorError>)
    requires
        old(breaker).wf(),
        counts_as_failure(answer) ==> old(breaker)@[provider].failures < u32::MAX,
        format_of(provider) is OpenAICompatible,
    ensures
        final(breaker).wf(),
        final(breaker).clock() == old(breaker).clock(),
        final(breaker)@ == breaker_after(old(breaker)@, provider, answer, now),
        match r {
            Ok(c) => answer_error(provider, answer) is None && c@ == openai_result(
                provider,
                answer->parsed->Ok_0@,
                latency_ms,
            ),
            Err(e) => answer_error(provider, answer) == Some(e@),
        },
{
    match settle(breaker, provider, answer, now) {
        Ok(response) => Ok(
            ConnectorResult {
                provider,
                model_id: response.model.clone(),
                latency_ms,
                input_tokens: response.usage.prompt_tokens,
                output_tokens: response.usage.completion_tokens,
                response,
            },
        ),
        Err(e) => Err(e),
    }
}

// Anthropic.

/// A block of Anthropic's answer.
#[derive(Debug)]
pub struct AnthropicBlock {
    pub kind: String,
    pub text: Option<String>,
}

/// Tokens that Anthropic reports.
#[derive(Debug, Clone, Copy)]
pub struct AnthropicUsage {
    pub input_tokens: u32,
    pub output_tokens: u32,
}

/// Anthropic's answer.
#[derive(Debug)]
pub struct AnthropicReply {
    pub id: String,
    pub model: String,
    pub content: Vec<AnthropicBlock>,
    pub stop_reason: String,
    pub usage: AnthropicUsage,
}

/// The text of the first block of kind `text`; empty if there is none or it holds no text.
pub open spec fn first_text(blocks: Seq<AnthropicBlock>) -> Seq<char>
    decreases blocks.len(),
{
    if blocks.len() == 0 {
        seq![]
    } else if blocks[0].kind@ == "text"@ {
        match blocks[0].text {
            Some(t) => t@,
            None => seq![],
        }
    } else {
        first_text(blocks.drop_first())
    }
}

/// What is made of Anthropic's answer.
pub open spec fn anthropic_result(body: AnthropicReply, latency_ms: u64, created: u64) -> ResultView {
    ResultView {
        provider: Provider::Anthropic,
        model_id: body.model@,
        response: ResponseView {
            id: body.id@,
            object: "chat.completion"@,
            created,
            model: body.model@,
            choices: single_choice(first_text(body.content@), body.stop_reason@),
            usage: Usage {
                prompt_tokens: body.usage.input_tokens,
                completion_tokens: body.usage.output_tokens,
                total_tokens: (body.usage.input_tokens + body.usage.output_tokens) as u32,
            },
        },
        latency_ms,
        input_tokens: body.usage.input_tokens,
        output_tokens: body.usage.output_tokens,
    }
}

/// The text of the first block of kind `text`.
pub fn first_text_block(blocks: &Vec<AnthropicBlock>) -> (s: String)
    ensures
        s@ == first_text(blocks@),
{
    let mut i: usize = 0;
    assert(blocks@.skip(0) == blocks@);
    while i < blocks.len()
        invariant
            i <= blocks@.len(),
            first_text(blocks@) == first_text(blocks@.skip(i as int)),
        decreases blocks@.len() - i,
    {
        assert(blocks@.skip(i as int)[0] == blocks@[i as int]);
        assert(blocks@.skip(i as int).drop_first() == blocks@.skip(i + 1));
        if same_text(blocks[i].kind.as_str(), "text") {
            return match &blocks[i].text {
                Some(t) => t.clone(),
                None => String::new(),
            };
        }
        i = i + 1;
    }
    String::new()
}

/// Settles the answer of Anthropic. `created` is the time in seconds since the Unix epoch.
pub fn finish_anthropic(
    breaker: &mut CircuitBreaker,
    answer: Answer<AnthropicReply>,
    latency_ms: u64,
    created: u64,
    now: u128,
) -> (r: Result<ConnectorResult, ConnectorError>)
    requires
        old(breaker).wf(),
        counts_as_failure(answer) ==> old(breaker)@[Provider::Anthropic].failures < u32::MAX,
        answer_error(Provider::Anthropic, answer) is None ==> {
            let usage = answer->parsed->Ok_0.usage;
            usage.input_tokens + usage.output_tokens <= u32::MAX
        },
    ensures
        final(breaker).wf(),
        final(breaker).clock() == old(breaker).clock(),
        final(breaker)@ == breaker_after(old(breaker)@, Provider::Anthropic, answer, now),
        match r {
            Ok(c) => answer_error(Provider::Anthropic, answer) is None && c@ == anthropic_result(
                answer->parsed->Ok_0,
                latency_ms,
                created,
            ),
            Err(e) => answer_error(Provider::Anthropic, answer) == Some(e@),
        },
{
    match settle(breaker, Provider::Anthropic, answer, now) {
        Ok(body) => {
            let content = first_text_block(&body.content);
            let usage = Usage {
                prompt_tokens: body.usage.input_tokens,
                completion_tokens: body.usage.output_tokens,
                total_tokens: body.usage.input_tokens + body.usage.output_tokens,
            };
            let response = ChatCompletionResponse {
                id: body.id,
                object: "chat.completion".to_string(),
                created,
                model: body.model.clone(),
                choices: one_choice(content, body.stop_reason),
                usage,
            };
            Ok(
                ConnectorResult {
                    provider: Provider::Anthropic,
                    model_id: body.model,
                    response,
                    latency_ms,
                    input_tokens: usage.prompt_tokens,
                    output_tokens: usage.completion_tokens,
                },
            )
        },
        Err(e) => Err(e),
    }
}

// Gemini.

/// A candidate of Gemini's answer: the texts of its parts, and why it ended.
#[derive(Debug)]
pub struct GeminiCandidate {
    pub parts: Vec<Option<String>>,
    pub finish_reason: Option<String>,
}

/// Tokens that Gemini reports.
#[derive(Debug, Clone, Copy)]
pub struct GeminiUsage {
    pub prompt_token_count: u32,
    pub candidates_token_count: u32,
}

/// Gemini's answer.
#[derive(Debug)]
pub struct GeminiReply {
    pub candidates: Vec<GeminiCandidate>,
    pub usage_metadata: Option<GeminiUsage>,
}

/// The text of the first part of the first candidate; empty if there is none.
pub open spec fn gemini_text(body: GeminiReply) -> Seq<char> {
    if body.candidates@.len() > 0 && body.candidates@[0].parts@.len() > 0 {
        match body.candidates@[0].parts@[0] {
            Some(t) => t@,
            None => seq![],
        }
    } else {
        seq![]
    }
}

/// Why the first candidate ended; `stop` if that is not said.
pub open spec fn gemini_finish(body: GeminiReply) -> Seq<char> {
    if body.candidates@.len() > 0 {
        match body.candidates@[0].finish_reason {
            Some(r) => r@,
            None => "stop"@,
        }
    } else {
        "stop"@
    }
}

/// The input and output tokens; none of either where they are not reported.
pub open spec fn gemini_tokens(body: GeminiReply) -> (u32, u32) {
    match body.usage_metadata {
        Some(u) => (u.prompt_token_count, u.candidates_token_count),
        None => (0, 0),
    }
}

/// What is made of Gemini's answer to a request for a model. Gemini names neither the answer nor
/// the model.
pub open spec fn gemini_result(
    model: Seq<char>,
    body: GeminiReply,
    latency_ms: u64,
    created: u64,
) -> ResultView {
    let tokens = gemini_tokens(body);
    ResultView {
        provider: Provider::Gemini,
        model_id: model,
        response: ResponseView {
            id: "gemini-"@ + decimal(created as nat),
            object: "chat.completion"@,
            created,
            model,
            choices: single_choice(gemini_text(body), gemini_finish(body)),
            usage: Usage {
                prompt_tokens: tokens.0,
                completion_tokens: tokens.1,
                total_tokens: (tokens.0 + tokens.1) as u32,
            },
        },
        latency_ms,
        input_tokens: tokens.0,
        output_tokens: tokens.1,
    }
}

/// Settles the answer of Gemini to a request for a model. `created` is the time in seconds since
/// the Unix epoch.
pub fn finish_gemini(
    breaker: &mut CircuitBreaker,
    model: &str,
    answer: Answer<GeminiReply>,
    latency_ms: u64,
    created: u64,
    now: u128,
) -> (r: Result<ConnectorResult, ConnectorError>)
    requires
        old(breaker).wf(),
        counts_as_failure(answer) ==> old(breaker)@[Provider::Gemini].failures < u32::MAX,
        answer_error(Provider::Gemini, answer) is None ==> {
            let tokens = gemini_tokens(answer->parsed->Ok_0);
            tokens.0 + tokens.1 <= u32::MAX
        },
    ensures
        final(breaker).wf(),
        final(breaker).clock() == old(breaker).clock(),
        final(breaker)@ == breaker_after(old(breaker)@, Provider::Gemini, answer, now),
        match r {
            Ok(c) => answer_error(Provider::Gemini, answer) is None && c@ == gemini_result(
                model@,
                answer->parsed->Ok_0,
                latency_ms,
                created,
            ),
            Err(e) => answer_error(Provider::Gemini, answer) == Some(e@),
        },
{
    match settle(breaker, Provider::Gemini, answer, now) {
        Ok(body) => {
            let content = if body.candidates.len() > 0 && body.candidates[0].parts.len() > 0 {
                match &body.candidates[0].parts[0] {
                    Some(t) => t.clone(),
                    None => String::new(),
                }
            } else {
                String::new()
            };
            let finish_reason = if body.candidates.len() > 0 {
                match &body.candidates[0].finish_reason {
                    Some(r) => r.clone(),
                    None => "stop".to_string(),
                }
            } else {
                "stop".to_string()
            };
            let (prompt_tokens, completion_tokens): (u32, u32) = match body.usage_metadata {
                Some(u) => (u.prompt_token_count, u.candidates_token_count),
                None => (0, 0),
            };
            let stamp = decimal_text(created as u128);
            let response = ChatCompletionResponse {
                id: text2("gemini-", stamp.as_str()),
                object: "chat.completion".to_string(),
                created,
                model: model.to_string(),
                choices: one_choice(content, finish_reason),
                usage: Usage {
                    prompt_tokens,
                    completion_tokens,
                    total_tokens: prompt_tokens + completion_tokens,
                },
            };
            Ok(
                ConnectorResult {
                    provider: Provider::Gemini,
                    model_id: model.to_string(),
                    response,
                    latency_ms,
                    input_tokens: prompt_tokens,
                    output_tokens: completion_tokens,
                },
            )
        },
        Err(e) => Err(e),
    }
}

/// Three faults in a row hold back every request to the provider until a minute after the third.
/// The other providers are not touched.
pub proof fn law_three_faults_hold_requests_back<T>(
    b: Map<Provider, ProviderState>,
    p: Provider,
    first: Answer<T>,
    first_at: u128,
    second: Answer<T>,
    second_at: u128,
    third: Answer<T>,
    third_at: u128,
    now: u128,
)
    requires
        b[p] == healthy(),
        counts_as_failure(first),
        counts_as_failure(second),
        counts_as_failure(third),
    ensures
        ({
            let one = breaker_after(b, p, first, first_at);
            let two = breaker_after(one, p, second, second_at);
            let three = breaker_after(two, p, third, third_at);
            &&& !blocked(one[p], now)
            &&& !blocked(two[p], now)
            &&& blocked(three[p], now) <==> age(now, third_at) <= seconds(60)
            &&& forall|q: Provider| q != p ==> #[trigger] three[q] == b[q]
        }),
{
}

/// What is wrong with a request, a key or a connection does not count against the provider: while its
/// circuit is not half open, it stays as it is.
pub proof fn law_only_faults_count<T>(
    b: Map<Provider, ProviderState>,
    p: Provider,
    a: Answer<T>,
    now: u128,
)
    requires
        a is Failed || (a matches Answer::Replied { status, text, parsed } && 400 <= status <= 499),
        b.dom().contains(p),
        !(b[p].state is HalfOpen),
    ensures
        breaker_after(b, p, a, now) == b,
        answer_error(p, a) is Some,
{
    assert(b.insert(p, b[p]) == b);
}

/// Every answer ends a trial: whatever comes back, the circuit is half open no more, and there is a
/// time from which a request is let through again, even if nothing else is recorded. (Times end
/// somewhere; the timeout must fit before that end.)
pub proof fn law_every_answer_ends_the_trial<T>(
    b: Map<Provider, ProviderState>,
    p: Provider,
    a: Answer<T>,
    now: u128,
)
    requires
        b[p].wf(),
        b[p].state is HalfOpen,
        counts_as_failure(a) ==> b[p].failures < u32::MAX,
        now < u128::MAX - RESET_TIMEOUT,
        b[p].opened_at->0 < u128::MAX - RESET_TIMEOUT,
    ensures
        breaker_after(b, p, a, now)[p].wf(),
        !(breaker_after(b, p, a, now)[p].state is HalfOpen),
        exists|later: u128| !#[trigger] blocked(breaker_after(b, p, a, now)[p], later),
{
    let after = breaker_after(b, p, a, now)[p];
    let opened = match after.opened_at {
        Some(t) => t,
        None => 0,
    };
    let later = (opened + RESET_TIMEOUT + 1) as u128;
    assert(!blocked(after, later));
}

/// A trial whose answer tells nothing of the provider is as if it had not been: where a request has
/// taken the trial of an open circuit, and its key or rate is refused, it is otherwise at fault, or
/// its connection fails, every circuit is as it was before, and the next request is the next trial.
pub proof fn law_inconclusive_trial_can_be_taken_again<T>(
    b: Map<Provider, ProviderState>,
    p: Provider,
    asked_at: u128,
    a: Answer<T>,
    now: u128,
    later: u128,
)
    requires
        b.dom().contains(p),
        b[p].wf(),
        b[p].state is Open,
        !blocked(b[p], asked_at),
        answer_error(p, a) is Some,
        !counts_as_failure(a),
        asked_at <= later,
    ensures
        ({
            let taken = b.insert(p, asked(b[p], asked_at));
            let after = breaker_after(taken, p, a, now);
            &&& blocked(taken[p], later)
            &&& after == b
            &&& !blocked(after[p], later)
        }),
{
    let taken = b.insert(p, asked(b[p], asked_at));
    assert(released(taken[p]) == b[p]);
    assert(taken.insert(p, b[p]) == b);
}

/// A refused key or rate frees the trial: the client is told of it, and the provider is not locked
/// out, for the next request is let through as the next trial.
pub proof fn law_refused_key_or_rate_frees_the_trial<T>(
    b: Map<Provider, ProviderState>,
    p: Provider,
    asked_at: u128,
    status: u16,
    text: String,
    parsed: Result<T, String>,
    now: u128,
    later: u128,
)
    requires
        b.dom().contains(p),
        b[p].wf(),
        b[p].state is Open,
        !blocked(b[p], asked_at),
        status == 401 || status == 429,
        asked_at <= later,
    ensures
        ({
            let a = Answer::<T>::Replied { status, text, parsed };
            let taken = b.insert(p, asked(b[p], asked_at));
            &&& answer_error(p, a) == Some(
                if status == 401 {
                    ErrorView::Unauthorized
                } else {
                    ErrorView::RateLimited
                },
            )
            &&& breaker_after(taken, p, a, now) == b
            &&& !blocked(breaker_after(taken, p, a, now)[p], later)
        }),
{
    law_inconclusive_trial_can_be_taken_again(
        b,
        p,
        asked_at,
        Answer::<T>::Replied { status, text, parsed },
        now,
        later,
    );
}

/// A success closes the provider's circuit, whatever it was.
pub proof fn law_success_restores_the_provider<T>(
    b: Map<Provider, ProviderState>,
    p: Provider,
    a: Answer<T>,
    now: u128,
    later: u128,
)
    requires
        answer_error(p, a) is None,
    ensures
        breaker_after(b, p, a, now)[p] == healthy(),
        !blocked(breaker_after(b, p, a, now)[p], later),
{
}

/// Every reply with a status from 500 to 599 counts against the provider and is told as a server error;
/// a timeout counts too, and so does a success whose body is not in the provider's format.
pub proof fn law_server_errors_count_against_the_provider<T>(
    b: Map<Provider, ProviderState>,
    p: Provider,
    status: u16,
    text: String,
    parsed: Result<T, String>,
    now: u128,
)
    ensures
        500 <= status <= 599 ==> {
            let a = Answer::<T>::Replied { status, text, parsed };
            &&& answer_error(p, a) == Some(ErrorView::ServerError(status))
            &&& breaker_after(b, p, a, now) == b.insert(p, failed(b[p], now))
        },
        answer_error(p, Answer::<T>::TimedOut) == Some(ErrorView::Timeout),
        breaker_after(b, p, Answer::<T>::TimedOut, now) == b.insert(p, failed(b[p], now)),
        200 <= status <= 299 && parsed is Err ==> {
            let a = Answer::<T>::Replied { status, text, parsed };
            &&& answer_error(p, a) == Some(
                ErrorView::BadResponse(
                    "Provider returned unexpected response format: "@ + parsed->Err_0@,
                ),
            )
            &&& breaker_after(b, p, a, now) == b.insert(p, failed(b[p], now))
        },
{
}

/// Three replies in a row with statuses from 500 to 599 hold back every request to the provider for a
/// minute after the third.
pub proof fn law_three_server_errors_hold_requests_back<T>(
    b: Map<Provider, ProviderState>,
    p: Provider,
    s1: u16,
    s2: u16,
    s3: u16,
    text: String,
    parsed: Result<T, String>,
    at1: u128,
    at2: u128,
    at3: u128,
    now: u128,
)
    requires
        b[p].state is Closed,
        b[p].failures == 0,
        500 <= s1 <= 599,
        500 <= s2 <= 599,
        500 <= s3 <= 599,
    ensures
        ({
            let one = breaker_after(b, p, Answer::<T>::Replied { status: s1, text, parsed }, at1);
            let two = breaker_after(one, p, Answer::<T>::Replied { status: s2, text, parsed }, at2);
            let three = breaker_after(
                two,
                p,
                Answer::<T>::Replied { status: s3, text, parsed },
                at3,
            );
            &&& !blocked(one[p], now)
            &&& !blocked(two[p], now)
            &&& at3 <= now <= at3 + 60_000_000_000 ==> blocked(three[p], now)
            &&& now > at3 + 60_000_000_000 ==> !blocked(three[p], now)
        }),
{
}

/// A success is a status from 200 to 299 with a body in the provider's format: it is no error, and the
/// provider's circuit is closed with no failure counted.
pub proof fn law_successes_are_answers<T>(
    b: Map<Provider, ProviderState>,
    p: Provider,
    status: u16,
    text: String,
    body: T,
    now: u128,
)
    ensures
        ({
            let a = Answer::<T>::Replied { status, text, parsed: Ok(body) };
            &&& 200 <= status <= 299 <==> answer_error(p, a) is None
            &&& 200 <= status <= 299 ==> {
                let s = breaker_after(b, p, a, now)[p];
                &&& s.state is Closed
                &&& s.failures == 0
                &&& s.opened_at is None
                &&& s.last_failure_time is None
                &&& !s.probe_in_flight
            }
        }),
{
}

/// How a refusal is told: 401 as a rejected key, and 403 too but by Anthropic; 429 as a rate limit; any
/// other that is no fault of the provider by its number and its text. None of them counts against the
/// provider: a circuit whose trial is not in flight stays as it is.
pub proof fn law_refusals_are_told_as_they_are<T>(
    b: Map<Provider, ProviderState>,
    p: Provider,
    status: u16,
    text: String,
    parsed: Result<T, String>,
    now: u128,
)
    requires
        b.dom().contains(p),
        b[p].wf(),
        !(200 <= status <= 299),
        !(500 <= status <= 599),
    ensures
        ({
            let a = Answer::<T>::Replied { status, text, parsed };
            &&& status == 401 ==> answer_error(p, a) == Some(ErrorView::Unauthorized)
            &&& status == 403 && p != Provider::Anthropic ==> answer_error(p, a) == Some(
                ErrorView::Unauthorized,
            )
            &&& status == 429 ==> answer_error(p, a) == Some(ErrorView::RateLimited)
            &&& status != 401 && status != 429 && (status != 403 || p == Provider::Anthropic)
                ==> answer_error(p, a) == Some(
                ErrorView::BadResponse("HTTP "@ + decimal(status as nat) + (": "@ + text@)),
            )
            &&& !(b[p].state is HalfOpen) ==> breaker_after(b, p, a, now) == b
            &&& breaker_after(b, p, a, now)[p].failures == b[p].failures
        }),
{
    assert(b.insert(p, b[p]) == b);
}

/// A failed transport is told with its own text and does not count against the provider.
pub proof fn law_failed_transports_do_not_count<T>(
    b: Map<Provider, ProviderState>,
    p: Provider,
    reason: String,
    now: u128,
)
    requires
        b.dom().contains(p),
    ensures
        answer_error(p, Answer::<T>::Failed(reason)) == Some(ErrorView::Http(reason@)),
        !(b[p].state is HalfOpen) ==> breaker_after(b, p, Answer::<T>::Failed(reason), now) == b,
        breaker_after(b, p, Answer::<T>::Failed(reason), now)[p].failures == b[p].failures,
{
    assert(b.insert(p, b[p]) == b);
}

/// Whatever one provider answers, the circuits of the others stay as they are.
pub proof fn law_other_providers_are_not_touched<T>(
    b: Map<Provider, ProviderState>,
    p: Provider,
    q: Provider,
    a: Answer<T>,
    now: u128,
)
    requires
        p != q,
    ensures
        breaker_after(b, p, a, now)[q] == b[q],
        breaker_after(b, p, a, now).dom().contains(q) == b.dom().contains(q),
{
}

/// Every call carries the client's key, and no other: Anthropic's in its own header, Gemini's in the
/// query, and every other provider's as the bearer token.
pub proof fn law_calls_carry_the_clients_key(p: Provider, req: RequestView, key: Seq<char>)
    ensures
        ({
            let o = outgoing_for(p, req, key);
            &&& p == Provider::Anthropic ==> o.bearer is None && o.query.len() == 0 && o.headers
                == seq![
                ("x-api-key"@, key),
                ("anthropic-version"@, "2023-06-01"@),
                ("content-type"@, "application/json"@),
            ]
            &&& p == Provider::Gemini ==> o.bearer is None && o.query == seq![("key"@, key)]
                && o.headers == seq![("content-type"@, "application/json"@)]
            &&& p != Provider::Anthropic && p != Provider::Gemini ==> o.bearer == Some(key)
                && o.query.len() == 0
            &&& p == Provider::OpenRouter ==> o.headers == seq![
                ("HTTP-Referer"@, "https://routerfuel.com"@),
                ("X-Title"@, "RouterFuel"@),
            ]
            &&& p != Provider::Anthropic && p != Provider::Gemini && p != Provider::OpenRouter
                ==> o.headers.len() == 0
        }),
{
}

/// Every call goes to the provider's own endpoint, Gemini's with the model in it, and carries the
/// request in the provider's format.
pub proof fn law_calls_go_to_the_providers_endpoint(p: Provider, req: RequestView, key: Seq<char>)
    ensures
        p == Provider::Gemini ==> outgoing_for(p, req, key).url == base_url(p) + "/"@ + (req.model
            + ":generateContent"@) && outgoing_for(p, req, key).body == BodyView::Json(
            gemini_body_of(req),
        ),
        p == Provider::Anthropic ==> outgoing_for(p, req, key).url == base_url(p) && outgoing_for(
            p,
            req,
            key,
        ).body == BodyView::Anthropic(anthropic_body_of(req)),
        p != Provider::Gemini && p != Provider::Anthropic ==> outgoing_for(p, req, key).url
            == base_url(p) && outgoing_for(p, req, key).body == BodyView::Json(
            openai_body_of(req),
        ),
{
}

/// A streamed call is the same call with the wish for a stream: the same key, headers, model and turns.
pub proof fn law_streams_are_the_same_call(p: Provider, req: RequestView, key: Seq<char>)
    ensures
        ({
            let s = outgoing_stream_for(p, req, key);
            let o = outgoing_for(p, req, key);
            &&& s.bearer == o.bearer
            &&& s.headers == o.headers
            &&& p == Provider::Anthropic ==> {
                &&& s.url == o.url && s.query == o.query
                &&& s.body is Anthropic
                &&& s.body->Anthropic_0.stream == Some(true)
                &&& (AnthropicBodyView { stream: None, ..s.body->Anthropic_0 })
                    == anthropic_body_of(req)
            }
            &&& p == Provider::Gemini ==> {
                &&& s.url == base_url(p) + "/"@ + (req.model + ":streamGenerateContent"@)
                &&& s.query == seq![("alt"@, "sse"@), ("key"@, key)]
                &&& s.body == o.body
            }
            &&& p != Provider::Anthropic && p != Provider::Gemini ==> {
                &&& s.url == o.url && s.query == o.query
                &&& s.body == BodyView::Json(
                    openai_body_of(RequestView { stream: Some(true), ..req }),
                )
            }
        }),
{
}

/// What is made of an OpenAI-compatible answer is that answer, with its own tokens and model.
pub proof fn law_openai_answers_are_passed_on(p: Provider, body: ResponseView, latency_ms: u64)
    ensures
        ({
            let r = openai_result(p, body, latency_ms);
            &&& r.provider == p
            &&& r.response == body
            &&& r.model_id == body.model
            &&& r.latency_ms == latency_ms
            &&& r.input_tokens == body.usage.prompt_tokens
            &&& r.output_tokens == body.usage.completion_tokens
        }),
{
}

/// A completion of a single text is one answer of the assistant with that text.
pub proof fn law_single_answers_hold_the_text(text: Seq<char>, reason: Seq<char>)
    ensures
        single_choice(text, reason).len() == 1,
        single_choice(text, reason)[0].index == 0,
        single_choice(text, reason)[0].message.role == "assistant"@,
        single_choice(text, reason)[0].message.content == ContentView::Text(text),
        single_choice(text, reason)[0].finish_reason == reason,
{
}

/// The text of Anthropic's answer is that of its first text block: blocks of other kinds before it are
/// passed over, and what follows it does not matter.
pub proof fn law_first_text_block_is_the_answer(
    before: Seq<AnthropicBlock>,
    block: AnthropicBlock,
    after: Seq<AnthropicBlock>,
)
    requires
        forall|i: int| 0 <= i < before.len() ==> (#[trigger] before[i]).kind@ != "text"@,
    ensures
        first_text(before).len() == 0,
        block.kind@ == "text"@ && block.text is Some ==> first_text(before.push(block) + after)
            == block.text->0@,
        block.kind@ == "text"@ && block.text is None ==> first_text(
            before.push(block) + after,
        ).len() == 0,
    decreases before.len(),
{
    let whole = before.push(block) + after;
    if before.len() > 0 {
        let rest = before.drop_first();
        assert forall|i: int| 0 <= i < rest.len() implies (#[trigger] rest[i]).kind@ != "text"@ by {
            assert(rest[i] == before[i + 1]);
        }
        law_first_text_block_is_the_answer(rest, block, after);
        assert(whole.drop_first() == rest.push(block) + after);
        assert(whole[0] == before[0]);
        assert(before[0].kind@ != "text"@);
    } else {
        assert(whole[0] == block);
    }
}

/// What is made of Anthropic's answer holds its id, model, text, stop reason and tokens.
pub proof fn law_anthropic_answers_are_passed_on(
    body: AnthropicReply,
    latency_ms: u64,
    created: u64,
)
    requires
        body.usage.input_tokens + body.usage.output_tokens <= u32::MAX,
    ensures
        ({
            let r = anthropic_result(body, latency_ms, created);
            &&& r.provider == Provider::Anthropic
            &&& r.model_id == body.model@
            &&& r.latency_ms == latency_ms
            &&& r.input_tokens == body.usage.input_tokens
            &&& r.output_tokens == body.usage.output_tokens
            &&& r.response.id == body.id@
            &&& r.response.object == "chat.completion"@
            &&& r.response.created == created
            &&& r.response.model == body.model@
            &&& r.response.choices.len() == 1
            &&& r.response.choices[0].message.role == "assistant"@
            &&& r.response.choices[0].message.content == ContentView::Text(
                first_text(body.content@),
            )
            &&& r.response.choices[0].finish_reason == body.stop_reason@
            &&& r.response.usage.prompt_tokens == body.usage.input_tokens
            &&& r.response.usage.completion_tokens == body.usage.output_tokens
            &&& r.response.usage.total_tokens == body.usage.input_tokens
                + body.usage.output_tokens
        }),
{
}

/// What is made of Gemini's answer holds the model that was asked for, the first part of the first
/// candidate, why that ended, and the tokens that are reported; what is not reported is empty, `stop`
/// or none.
pub proof fn law_gemini_answers_are_passed_on(
    model: Seq<char>,
    body: GeminiReply,
    latency_ms: u64,
    created: u64,
)
    requires
        body.usage_metadata matches Some(u) ==> u.prompt_token_count + u.candidates_token_count
            <= u32::MAX,
    ensures
        ({
            let r = gemini_result(model, body, latency_ms, created);
            let choice = r.response.choices[0];
            &&& r.provider == Provider::Gemini
            &&& r.model_id == model
            &&& r.latency_ms == latency_ms
            &&& r.response.id == "gemini-"@ + decimal(created as nat)
            &&& r.response.object == "chat.completion"@
            &&& r.response.created == created
            &&& r.response.model == model
            &&& r.response.choices.len() == 1
            &&& choice.message.role == "assistant"@
            &&& choice.message.content is Text
            &&& body.candidates@.len() == 0 ==> choice.message.content->Text_0.len() == 0
                && choice.finish_reason == "stop"@
            &&& body.candidates@.len() > 0 ==> {
                let c = body.candidates@[0];
                &&& c.parts@.len() > 0 && c.parts@[0] is Some ==> choice.message.content->Text_0
                    == c.parts@[0]->0@
                &&& c.parts@.len() == 0 || c.parts@[0] is None
                    ==> choice.message.content->Text_0.len() == 0
                &&& c.finish_reason matches Some(f) ==> choice.finish_reason == f@
                &&& c.finish_reason is None ==> choice.finish_reason == "stop"@
            }
            &&& body.usage_metadata is None ==> r.input_tokens == 0 && r.output_tokens == 0
            &&& body.usage_metadata matches Some(u) ==> r.input_tokens == u.prompt_token_count
                && r.output_tokens == u.candidates_token_count
            &&& r.response.usage.prompt_tokens == r.input_tokens
            &&& r.response.usage.completion_tokens == r.output_tokens
            &&& r.response.usage.total_tokens == r.input_tokens + r.output_tokens
        }),
{
}

/// A response is seen with all that it holds, each choice in its place; and so is what was called.
pub proof fn law_results_are_seen_whole(r: ConnectorResult, i: int)
    ensures
        r@.provider == r.provider,
        r@.model_id == r.model_id@,
        r@.latency_ms == r.latency_ms,
        r@.input_tokens == r.input_tokens,
        r@.output_tokens == r.output_tokens,
        r@.response == r.response@,
        r.response@.id == r.response.id@,
        r.response@.object == r.response.object@,
        r.response@.created == r.response.created,
        r.response@.model == r.response.model@,
        r.response@.usage == r.response.usage,
        r.response@.choices.len() == r.response.choices@.len(),
        0 <= i < r.response.choices@.len() ==> {
            let c = r.response.choices@[i];
            &&& r.response@.choices[i].index == c.index
            &&& r.response@.choices[i].message.role == c.message.role@
            &&& r.response@.choices[i].message.content == c.message.content@
            &&& r.response@.choices[i].finish_reason == c.finish_reason@
        },
{
}

/// What is sent is seen with all that it holds, each header and each part of the query in its place.
pub proof fn law_calls_are_seen_whole(o: Outgoing, i: int)
    ensures
        o@.url == o.url@,
        o@.bearer is Some <==> o.bearer is Some,
        o.bearer matches Some(k) ==> o@.bearer == Some(k@),
        o@.headers.len() == o.headers@.len(),
        0 <= i < o.headers@.len() ==> o@.headers[i] == (o.headers@[i].0@, o.headers@[i].1@),
        o@.query.len() == o.query@.len(),
        0 <= i < o.query@.len() ==> o@.query[i] == (o.query@[i].0@, o.query@[i].1@),
        o.body matches WireBody::Anthropic(b) ==> o@.body == BodyView::Anthropic(b@),
        o.body matches WireBody::Json(v) ==> o@.body == BodyView::Json(json_view(v)),
{
}

} // verus!
